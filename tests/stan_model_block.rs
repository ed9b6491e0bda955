use stanmodel::stan_model_block::StanModelBlock;
use stanmodel::stan_model_block_type::StanModelBlockType;

#[test]
fn test_new() {
    let model1 = StanModelBlock::new(StanModelBlockType::Data);
    let model2 = StanModelBlock {
        code: Vec::new(),
        block_type: StanModelBlockType::Data,
    };

    assert_eq!(model1, model2);
}

#[test]
fn test_add_line() {
    let mut model = StanModelBlock::new(StanModelBlockType::Parameters);
    model.add("real y;");
    model.add("real x;");
    assert_eq!(
        model.code,
        ["real y;", "real x;"]
            .iter()
            .map(|s| s.to_string())
            .collect::<Vec<String>>()
    );
}

#[test]
fn get_code_returns_an_iterator_over_the_lines_of_code() {
    let mut model = StanModelBlock::new(StanModelBlockType::Model);
    model.add("  y ~ normal(0, 1);");
    model.add("  x ~ normal(0, 1);");

    let code = model.get_code();
    let code_vec = model.code.iter();

    assert_eq!(
        code.collect::<Vec<&String>>(),
        code_vec.collect::<Vec<&String>>()
    );
}

#[test]
fn add_keeps_lines_verbatim_and_duplicates() {
    let mut block = StanModelBlock::new(StanModelBlockType::Model);
    block.add("  a;  ");
    block.add("  a;  ");
    block.add("");
    assert_eq!(block.code, vec!["  a;  ", "  a;  ", ""]);
    assert_eq!(block.block_type, StanModelBlockType::Model);
}
