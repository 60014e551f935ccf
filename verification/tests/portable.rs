use purple_capture::portable::{validate_data_folder_name, DataFolderError, DATA_FOLDER_NAME};

#[test]
fn data_folder_names_name_one_folder() {
    assert_eq!(validate_data_folder_name(DATA_FOLDER_NAME), Ok(()));
    assert_eq!(validate_data_folder_name("Test_Data-2"), Ok(()));
    assert_eq!(validate_data_folder_name(&"a".repeat(80)), Ok(()));
    for bad in ["", "..", "a/b", "a\\b", "C:", "データ", "a b"] {
        assert_eq!(validate_data_folder_name(bad), Err(DataFolderError::InvalidName), "{bad}");
    }
    assert_eq!(validate_data_folder_name(&"a".repeat(81)), Err(DataFolderError::InvalidName));
    assert_eq!(DataFolderError::InvalidName.message(), "開発用データフォルダ名が不正です。");
}
