//! The portable data folder: everything the recorder keeps lives in one folder
//! beside the program, whose name a development build may choose.
use vstd::prelude::*;
use crate::text::{is_ascii_alnum, ascii_alnum, byte_len, text_byte_len, chars_of};

verus! {

/// Name of the data folder beside the program.
pub const DATA_FOLDER_NAME: &'static str = "PurpleCapture-PortableData";

/// Why a data folder name is refused.
#[derive(Debug, Clone, Copy, PartialEq, Eq, Structural)]
pub enum DataFolderError {
    InvalidName,
}

/// The message shown for a [`DataFolderError`].
pub open spec fn data_folder_error_text(e: DataFolderError) -> Seq<char> {
    "開発用データフォルダ名が不正です。"@
}

impl DataFolderError {
    pub fn message(&self) -> (r: String)
        ensures
            r@ == data_folder_error_text(*self),
    {
        String::from_str("開発用データフォルダ名が不正です。")
    }
}

/// A character that a data folder name may hold.
pub open spec fn is_folder_name_char(c: char) -> bool {
    is_ascii_alnum(c) || c == '-' || c == '_'
}

/// A name that a development build accepts for its data folder: not empty,
/// at most 80 bytes, of ASCII letters, digits, `-` and `_` only, so that it
/// names one folder and nothing else.
pub open spec fn is_data_folder_name(name: Seq<char>) -> bool {
    &&& name.len() > 0
    &&& byte_len(name) <= 80
    &&& forall|i: int| 0 <= i < name.len() ==> is_folder_name_char(#[trigger] name[i])
}

/// Accepts exactly the names that [`is_data_folder_name`] describes.
pub fn validate_data_folder_name(name: &str) -> (r: Result<(), DataFolderError>)
    ensures
        r is Ok <==> is_data_folder_name(name@),
        r is Err ==> r == Err::<(), DataFolderError>(DataFolderError::InvalidName),
{
    let v = chars_of(name);
    if v.len() == 0 || text_byte_len(name) > 80 {
        return Err(DataFolderError::InvalidName);
    }
    let mut i: usize = 0;
    while i < v.len()
        invariant
            v@ == name@,
            i <= v@.len(),
            forall|j: int| 0 <= j < i ==> is_folder_name_char(#[trigger] v@[j]),
        decreases v@.len() - i,
    {
        let c = v[i];
        if !(ascii_alnum(c) || c == '-' || c == '_') {
            return Err(DataFolderError::InvalidName);
        }
        i = i + 1;
    }
    Ok(())
}

} // verus!
