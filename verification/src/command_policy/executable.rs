//! What kind of program an executable file is.
use sha2::Digest;
use vstd::prelude::*;

use crate::bytes;
use crate::error::{ErrorModel, NonoError};
use crate::paths;
use crate::paths::FilePath;
use crate::text;

verus! {

/// How an executable file is run.
#[derive(Debug, Clone, Copy, PartialEq, Eq, Structural)]
pub enum ResolvedExecutableKind {
    /// The kernel loads it.
    Elf,
    /// An interpreter reads it.
    ShebangScript,
    /// Something else.
    Other,
}

/// How an executable file is run, and by which interpreter.
#[derive(Debug, PartialEq, Eq)]
pub struct ResolvedExecutableShape {
    pub kind: ResolvedExecutableKind,
    pub interpreter: Option<FilePath>,
    pub interpreter_args: Vec<String>,
}

/// What a shape stands for.
#[verifier::ext_equal]
pub struct ShapeModel {
    pub kind: ResolvedExecutableKind,
    pub interpreter: Option<Seq<u8>>,
    pub interpreter_args: Seq<Seq<char>>,
}

impl View for ResolvedExecutableShape {
    type V = ShapeModel;

    open spec fn view(&self) -> ShapeModel {
        ShapeModel {
            kind: self.kind,
            interpreter: match self.interpreter {
                Some(path) => Some(path@),
                None => None,
            },
            interpreter_args: text::texts(self.interpreter_args@),
        }
    }
}

impl Clone for ResolvedExecutableShape {
    fn clone(&self) -> (r: Self)
        ensures
            r@ == self@,
    {
        ResolvedExecutableShape {
            kind: self.kind,
            interpreter: match &self.interpreter {
                Some(path) => Some(path.clone()),
                None => None,
            },
            interpreter_args: text::copy_texts(&self.interpreter_args),
        }
    }
}

/// A shape without an interpreter.
pub open spec fn plain_shape(kind: ResolvedExecutableKind) -> ShapeModel {
    ShapeModel { kind, interpreter: None, interpreter_args: Seq::empty() }
}

/// The bytes that an ELF file begins with.
pub open spec fn elf_magic() -> Seq<u8> {
    seq![0x7fu8, 0x45u8, 0x4cu8, 0x46u8]
}

/// The bytes that a script begins with.
pub open spec fn script_magic() -> Seq<u8> {
    seq![0x23u8, 0x21u8]
}

/// The line of a script that names its interpreter, without its magic.
pub open spec fn shebang(contents: Seq<u8>) -> Seq<u8> {
    let rest = contents.skip(2);
    rest.take(bytes::first_position(rest, 10))
}

/// The shape of a script, given its first line as text or what is wrong with
/// it.
pub open spec fn script_shape(path: Seq<u8>, line: Result<Seq<char>, Seq<char>>) -> Result<
    ShapeModel,
    ErrorModel,
> {
    match line {
        Err(complaint) => Err(
            ErrorModel::ProfileParse(
                "script command '"@ + paths::shown(path) + "' has non-UTF-8 shebang: "@
                    + complaint,
            ),
        ),
        Ok(line) => if text::words(line).len() == 0 {
            Err(
                ErrorModel::ProfileParse(
                    "script command '"@ + paths::shown(path) + "' has an empty shebang"@,
                ),
            )
        } else {
            Ok(
                ShapeModel {
                    kind: ResolvedExecutableKind::ShebangScript,
                    interpreter: Some(vstd::utf8::encode_utf8(text::words(line)[0])),
                    interpreter_args: text::words(line).skip(1),
                },
            )
        },
    }
}

/// Bytes as text, or what is wrong with them.
pub open spec fn decoded(b: Seq<u8>) -> Result<Seq<char>, Seq<char>> {
    if vstd::utf8::valid_utf8(b) {
        Ok(vstd::utf8::decode_utf8(b))
    } else {
        Err(bytes::utf8_complaint(b))
    }
}

/// The shape of the file at `path` with the given contents.
pub open spec fn shape_of(path: Seq<u8>, contents: Seq<u8>) -> Result<ShapeModel, ErrorModel> {
    if elf_magic().is_prefix_of(contents) {
        Ok(plain_shape(ResolvedExecutableKind::Elf))
    } else if script_magic().is_prefix_of(contents) {
        script_shape(path, decoded(shebang(contents)))
    } else {
        Ok(plain_shape(ResolvedExecutableKind::Other))
    }
}

fn is_elf(contents: &[u8]) -> (r: bool)
    ensures
        r == elf_magic().is_prefix_of(contents@),
{
    let r = contents.len() >= 4 && contents[0] == 0x7f && contents[1] == 0x45 && contents[2]
        == 0x4c && contents[3] == 0x46;
    proof {
        if r {
            assert(elf_magic() =~= contents@.subrange(0, 4));
        } else if elf_magic().is_prefix_of(contents@) {
            let head = contents@.subrange(0, 4);
            assert(head[0] == 0x7f && head[1] == 0x45 && head[2] == 0x4c && head[3] == 0x46);
        }
    }
    r
}

fn is_script(contents: &[u8]) -> (r: bool)
    ensures
        r == script_magic().is_prefix_of(contents@),
{
    let r = contents.len() >= 2 && contents[0] == 0x23 && contents[1] == 0x21;
    proof {
        if r {
            assert(script_magic() =~= contents@.subrange(0, 2));
        } else if script_magic().is_prefix_of(contents@) {
            let head = contents@.subrange(0, 2);
            assert(head[0] == 0x23 && head[1] == 0x21);
        }
    }
    r
}

/// Reads the interpreter and its arguments from the first line of a script.
/// `line` is that line as text, or what is wrong with its encoding.
pub fn classify_script(path: &FilePath, line: Result<String, String>) -> (r: Result<
    ResolvedExecutableShape,
    NonoError,
>)
    ensures
        crate::error::outcome(r) == script_shape(
            path@,
            match line {
                Ok(text) => Ok(text@),
                Err(complaint) => Err(complaint@),
            },
        ),
{
    let line = match line {
        Ok(line) => line,
        Err(complaint) => {
            return Err(
                NonoError::ProfileParse(
                    text::cat4(
                        "script command '",
                        path.display().as_str(),
                        "' has non-UTF-8 shebang: ",
                        complaint.as_str(),
                    ),
                ),
            );
        },
    };
    let mut parts = text::split_whitespace(line.as_str());
    if parts.len() == 0 {
        return Err(
            NonoError::ProfileParse(
                text::cat3(
                    "script command '",
                    path.display().as_str(),
                    "' has an empty shebang",
                ),
            ),
        );
    }
    let ghost all = text::texts(parts@);
    let interpreter = parts.remove(0);
    assert(text::texts(parts@) =~= all.skip(1));
    Ok(
        ResolvedExecutableShape {
            kind: ResolvedExecutableKind::ShebangScript,
            interpreter: Some(FilePath::from_text(interpreter.as_str())),
            interpreter_args: parts,
        },
    )
}

/// Tells how the file at `path` with the given contents is run.
pub fn classify_executable_shape(path: &FilePath, contents: &[u8]) -> (r: Result<
    ResolvedExecutableShape,
    NonoError,
>)
    ensures
        crate::error::outcome(r) == shape_of(path@, contents@),
{
    if is_elf(contents) {
        let none: Vec<String> = Vec::new();
        assert(text::texts(none@) =~= Seq::empty());
        return Ok(
            ResolvedExecutableShape {
                kind: ResolvedExecutableKind::Elf,
                interpreter: None,
                interpreter_args: none,
            },
        );
    }
    if is_script(contents) {
        let rest = bytes::byte_range(contents, 2, contents.len());
        assert(rest@ =~= contents@.skip(2));
        let end = bytes::find_first(rest.as_slice(), 10);
        let line = bytes::byte_range(rest.as_slice(), 0, end);
        assert(line@ =~= shebang(contents@));
        return classify_script(path, bytes::utf8_text(line.as_slice()));
    }
    let none: Vec<String> = Vec::new();
    assert(text::texts(none@) =~= Seq::empty());
    Ok(
        ResolvedExecutableShape {
            kind: ResolvedExecutableKind::Other,
            interpreter: None,
            interpreter_args: none,
        },
    )
}

/// The SHA-256 digest of bytes.
pub uninterp spec fn sha256(contents: Seq<u8>) -> Seq<u8>;

/// `sha2::Sha256::digest`: the digest has 32 bytes and depends on the contents
/// alone.
#[verifier::external_body]
fn sha256_digest(contents: &[u8]) -> (r: Vec<u8>)
    ensures
        r@ == sha256(contents@),
        r@.len() == 32,
{
    sha2::Sha256::digest(contents).to_vec()
}

/// The hexadecimal digit for `n`.
pub open spec fn hex_digit(n: nat) -> char {
    if n < 10 {
        ('0' as u8 + n) as char
    } else {
        ('a' as u8 + (n - 10)) as char
    }
}

/// Bytes in hexadecimal, two digits each.
pub open spec fn hex(b: Seq<u8>) -> Seq<char>
    decreases b.len(),
{
    if b.len() == 0 {
        Seq::empty()
    } else {
        hex(b.drop_last()).push(hex_digit(b.last() as nat / 16)).push(
            hex_digit(b.last() as nat % 16),
        )
    }
}

fn hex_char(n: u8) -> (r: char)
    requires
        n < 16,
    ensures
        r == hex_digit(n as nat),
{
    if n < 10 {
        (('0' as u8) + n) as char
    } else {
        (('a' as u8) + (n - 10)) as char
    }
}

/// Renders bytes in hexadecimal.
pub fn hex_text(b: &[u8]) -> (r: String)
    ensures
        r@ == hex(b@),
{
    let mut out = String::new();
    assert(b@.take(0) =~= Seq::empty());
    for i in 0..b.len()
        invariant
            out@ == hex(b@.take(i as int)),
    {
        out.push(hex_char(b[i] / 16));
        out.push(hex_char(b[i] % 16));
        assert(b@.take(i + 1).drop_last() =~= b@.take(i as int));
    }
    assert(b@.take(b@.len() as int) =~= b@);
    out
}

/// Renders the SHA-256 digest of a file's contents in hexadecimal.
pub fn sha256_hex(contents: &[u8]) -> (r: String)
    ensures
        r@ == hex(sha256(contents@)),
        r@.len() == 64,
{
    let digest = sha256_digest(contents);
    proof {
        lemma_hex_len(digest@);
    }
    hex_text(digest.as_slice())
}

proof fn lemma_hex_len(b: Seq<u8>)
    ensures
        hex(b).len() == 2 * b.len(),
    decreases b.len(),
{
    if b.len() > 0 {
        lemma_hex_len(b.drop_last());
    }
}

} // verus!
