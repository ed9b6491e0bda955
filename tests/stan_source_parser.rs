use stanmodel::stan_model::StanModel;
use stanmodel::stan_model_block::StanModelBlock;
use stanmodel::stan_model_block_type::StanModelBlockType;
use stanmodel::stan_source_parser::{
    AssembleError, FileList, FolderList, SourceParser, StanSourceParser,
};
use stanmodel::directive::directive_target_of;

/// A parser that answers every question with fixed values.
struct TestSourceParser {
    pub _filename: String,
    pub folders: FolderList,
}

impl SourceParser for TestSourceParser {
    fn get_folders(&self) -> Option<FolderList> {
        Some(vec![
            "folder1".to_string(),
            "folder2".to_string(),
            "folder1/subfolder".to_string(),
        ])
    }

    fn get_files_in_folder(&self, _folder_index: usize) -> Option<FileList> {
        Some(vec!["test.stan".to_string(), "functions.stan".to_string()])
    }

    fn get_files_in_folders(&self) -> Option<FileList> {
        Some(vec!["test.stan".to_string(), "functions.stan".to_string()])
    }

    fn find_file_in_folders(&self) -> Option<String> {
        Some("test.stan".to_string())
    }

    fn read_file(&self) -> Result<StanModel, AssembleError> {
        let mut model = StanModel::new();
        model.add_function("#include <functions.stan>");
        model.add_data("int<lower=0> N;");
        model.add_parameter("real mu;");
        model.add_model("mu ~ normal(0, 1);");

        Ok(model)
    }
}

/// Writes `contents` to a fresh temporary file and reads it back.
fn round_trip_through_temp_file(contents: &str) -> String {
    let mut file = tempfile::NamedTempFile::new().unwrap();
    std::io::Write::write_all(&mut file, contents.as_bytes()).unwrap();
    let mut reopened = file.reopen().unwrap();
    let mut text = String::new();
    std::io::Read::read_to_string(&mut reopened, &mut text).unwrap();
    text
}

const TEST_FILE_CONTENTS: &str = r#"
            functions {
                #include "functions/functions.stan"
                #include "helpers.stan"
            }
            data {
                #include "data/data.stan"
            }
            model {
                y ~ normal(0, 1);
            }
            "#;

#[test]
fn test_all_methods_in_the_test_source_parser() {
    let parser = TestSourceParser {
        _filename: "test.stan".to_string(),
        folders: vec![".".to_string()],
    };

    assert_eq!(
        parser.get_folders(),
        Some(vec![
            "folder1".to_string(),
            "folder2".to_string(),
            "folder1/subfolder".to_string(),
        ])
    );

    let folder_contents = vec!["test.stan".to_string(), "functions.stan".to_string()];

    assert_eq!(parser.get_files_in_folder(0), Some(folder_contents.clone()));
    assert_eq!(parser.get_files_in_folders(), Some(folder_contents.clone()));
    assert_eq!(parser.find_file_in_folders(), Some("test.stan".to_string()));

    let model = parser.read_file().unwrap();

    let mut functions_block = StanModelBlock::new(StanModelBlockType::Functions);
    functions_block.add("#include <functions.stan>");

    let mut data_block = StanModelBlock::new(StanModelBlockType::Data);
    data_block.add("int<lower=0> N;");

    let mut parameter_block = StanModelBlock::new(StanModelBlockType::Parameters);
    parameter_block.add("real mu;");

    let mut model_block = StanModelBlock::new(StanModelBlockType::Model);
    model_block.add("mu ~ normal(0, 1);");

    assert_eq!(model.functions, Some(functions_block));
    assert_eq!(model.data, data_block);
    assert_eq!(model.parameters, parameter_block);
    assert_eq!(model.model, model_block);
}

#[test]
fn stan_source_parser_test_stan_source_parser() {
    let parser1 = StanSourceParser::new("test.stan");
    assert_eq!(parser1.filename, "test.stan");

    let parser2 = StanSourceParser {
        filename: "test.stan".to_string(),
        folders: vec![".".to_string()],
    };

    assert_eq!(parser1, parser2);
}

#[test]
fn can_add_folders_to_parser_search_list() {
    let mut parser = StanSourceParser::new("test.stan");
    parser.add_folder("folder1");
    parser.add_folder("folder2");

    assert_eq!(
        parser.folders,
        vec![
            ".".to_string(),
            "folder1".to_string(),
            "folder2".to_string()
        ]
    );
}

#[test]
fn stan_source_parser_can_find_files_in_folders() {
    let parser = TestSourceParser {
        _filename: "test.stan".to_string(),
        folders: vec![".".to_string()],
    };
    assert_eq!(parser.folders, vec![".".to_string()]);
}

#[test]
fn can_split_a_file_into_a_vec_of_lines() {
    let contents = round_trip_through_temp_file(TEST_FILE_CONTENTS);
    let lines = StanSourceParser::get_lines(&contents);

    assert_eq!(lines[0], "functions {");
    assert_eq!(lines[1], "#include \"functions/functions.stan\"");
    assert_eq!(lines[2], "#include \"helpers.stan\"");
    assert_eq!(lines[3], "}");
    assert_eq!(lines[4], "data {");
    assert_eq!(lines[5], "#include \"data/data.stan\"");
    assert_eq!(lines[6], "}");
    assert_eq!(lines[7], "model {");
    assert_eq!(lines[8], "y ~ normal(0, 1);");
    assert_eq!(lines[9], "}");
    assert_eq!(lines.len(), 10);
}

#[test]
fn can_find_lines_with_an_include_directive() {
    let lines = StanSourceParser::get_lines(TEST_FILE_CONTENTS);
    let targets: Vec<String> = lines
        .iter()
        .filter_map(|l| directive_target_of(l))
        .collect();
    assert_eq!(
        targets,
        vec!["functions/functions.stan", "helpers.stan", "data/data.stan"]
    );
}

#[test]
fn get_lines_trims_and_drops_blank_lines() {
    let lines = StanSourceParser::get_lines("  a  \r\n\n \t \nb\n");
    assert_eq!(lines, vec!["a", "b"]);
    assert!(StanSourceParser::get_lines("").is_empty());
}
