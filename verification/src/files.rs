use vstd::prelude::*;
use vstd::string::StringExecFns;

verus! {

/// The two kinds of file the caller may hand to the pipeline: a keypair file
/// and a program binary.
pub enum FileType {
    Keypair,
    Program,
}

/// The file extension each file type must carry.
pub open spec fn spec_expected_extension(t: FileType) -> Seq<char> {
    match t {
        FileType::Keypair => "json"@,
        FileType::Program => "so"@,
    }
}

/// The extension a picked file must have for the given file type.
pub fn expected_extension(t: &FileType) -> (r: String)
    ensures
        r@ == spec_expected_extension(*t),
{
    match t {
        FileType::Keypair => String::from_str("json"),
        FileType::Program => String::from_str("so"),
    }
}

/// Whether a file's extension, if it has one, is exactly the expected one.
pub fn extension_matches(ext: Option<&String>, expected: &String) -> (r: bool)
    ensures
        r <==> (ext is Some && ext->0@ == expected@),
{
    match ext {
        Option::Some(e) => *e == *expected,
        Option::None => false,
    }
}

} // verus!
