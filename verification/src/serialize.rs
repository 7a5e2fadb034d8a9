//! The JSON wire form of file-bearing fields, and the decision rules for
//! reading a file field back from parsed JSON.
//!
//! A reference is a plain JSON string.  A pending file has no JSON
//! representation: it serializes as `null`, silently dropping the file — the
//! deliberate (and sharp) behaviour when a caller skipped extraction.

use vstd::prelude::*;
use vstd::string::StrSliceExecFns;
use vstd::string::StringExecFns;

use crate::input_file::{FileUpload, InputFile, InputFileView};

verus! {

/// The character for the hexadecimal digit `d`, lower case.
pub open spec fn hex_char(d: nat) -> char {
    if d == 0 {
        '0'
    } else if d == 1 {
        '1'
    } else if d == 2 {
        '2'
    } else if d == 3 {
        '3'
    } else if d == 4 {
        '4'
    } else if d == 5 {
        '5'
    } else if d == 6 {
        '6'
    } else if d == 7 {
        '7'
    } else if d == 8 {
        '8'
    } else if d == 9 {
        '9'
    } else if d == 10 {
        'a'
    } else if d == 11 {
        'b'
    } else if d == 12 {
        'c'
    } else if d == 13 {
        'd'
    } else if d == 14 {
        'e'
    } else {
        'f'
    }
}

/// One character of a JSON string body, escaped as the wire format writes it:
/// quote and backslash escaped, the named control escapes, other control
/// characters as `\u00XX`, everything else verbatim.
pub open spec fn json_escaped_char(c: char) -> Seq<char> {
    if c == '"' {
        seq!['\\', '"']
    } else if c == '\\' {
        seq!['\\', '\\']
    } else if c == '\u{8}' {
        seq!['\\', 'b']
    } else if c == '\u{9}' {
        seq!['\\', 't']
    } else if c == '\u{a}' {
        seq!['\\', 'n']
    } else if c == '\u{c}' {
        seq!['\\', 'f']
    } else if c == '\u{d}' {
        seq!['\\', 'r']
    } else if (c as u32) < 0x20 {
        seq!['\\', 'u', '0', '0', hex_char((c as u32) as nat / 16), hex_char(
            (c as u32) as nat % 16,
        )]
    } else {
        seq![c]
    }
}

/// The escaped body of a JSON string.
pub open spec fn json_escaped(s: Seq<char>) -> Seq<char>
    decreases s.len(),
{
    if s.len() == 0 {
        Seq::empty()
    } else {
        json_escaped_char(s[0]) + json_escaped(s.drop_first())
    }
}

/// The JSON string literal for `s`: quoted and escaped.
pub open spec fn json_string(s: Seq<char>) -> Seq<char> {
    seq!['"'] + json_escaped(s) + seq!['"']
}

proof fn lemma_json_escaped_concat(a: Seq<char>, b: Seq<char>)
    ensures
        json_escaped(a + b) == json_escaped(a) + json_escaped(b),
    decreases a.len(),
{
    if a.len() == 0 {
        assert(a + b =~= b);
        assert(json_escaped(a) + json_escaped(b) =~= json_escaped(b));
    } else {
        assert((a + b)[0] == a[0]);
        assert((a + b).drop_first() =~= a.drop_first() + b);
        lemma_json_escaped_concat(a.drop_first(), b);
        assert(json_escaped(a + b) =~= json_escaped(a) + json_escaped(b));
    }
}

proof fn lemma_json_escaped_one(c: char)
    ensures
        json_escaped(seq![c]) == json_escaped_char(c),
{
    assert(seq![c].drop_first() =~= Seq::<char>::empty());
    assert(json_escaped(seq![c].drop_first()) == Seq::<char>::empty());
    assert(seq![c][0] == c);
    assert(json_escaped(seq![c]) =~= json_escaped_char(c));
}

fn append_hex_digit(out: &mut String, d: u32)
    requires
        d < 16,
    ensures
        final(out)@ == old(out)@ + seq![hex_char(d as nat)],
{
    let digit: &str = if d == 0 {
        "0"
    } else if d == 1 {
        "1"
    } else if d == 2 {
        "2"
    } else if d == 3 {
        "3"
    } else if d == 4 {
        "4"
    } else if d == 5 {
        "5"
    } else if d == 6 {
        "6"
    } else if d == 7 {
        "7"
    } else if d == 8 {
        "8"
    } else if d == 9 {
        "9"
    } else if d == 10 {
        "a"
    } else if d == 11 {
        "b"
    } else if d == 12 {
        "c"
    } else if d == 13 {
        "d"
    } else if d == 14 {
        "e"
    } else {
        "f"
    };
    proof {
        reveal_strlit("0");
        reveal_strlit("1");
        reveal_strlit("2");
        reveal_strlit("3");
        reveal_strlit("4");
        reveal_strlit("5");
        reveal_strlit("6");
        reveal_strlit("7");
        reveal_strlit("8");
        reveal_strlit("9");
        reveal_strlit("a");
        reveal_strlit("b");
        reveal_strlit("c");
        reveal_strlit("d");
        reveal_strlit("e");
        reveal_strlit("f");
        assert(digit@ =~= seq![hex_char(d as nat)]);
    }
    out.append(digit);
}

fn append_escape(out: &mut String, c: char)
    requires
        (c as u32) < 0x20 || c == '"' || c == '\\',
    ensures
        final(out)@ == old(out)@ + json_escaped_char(c),
{
    if c == '"' {
        proof {
            reveal_strlit("\\\"");
            assert("\\\""@ =~= seq!['\\', '"']);
        }
        out.append("\\\"");
    } else if c == '\\' {
        proof {
            reveal_strlit("\\\\");
            assert("\\\\"@ =~= seq!['\\', '\\']);
        }
        out.append("\\\\");
    } else if c == '\u{8}' {
        proof {
            reveal_strlit("\\b");
            assert("\\b"@ =~= seq!['\\', 'b']);
        }
        out.append("\\b");
    } else if c == '\u{9}' {
        proof {
            reveal_strlit("\\t");
            assert("\\t"@ =~= seq!['\\', 't']);
        }
        out.append("\\t");
    } else if c == '\u{a}' {
        proof {
            reveal_strlit("\\n");
            assert("\\n"@ =~= seq!['\\', 'n']);
        }
        out.append("\\n");
    } else if c == '\u{c}' {
        proof {
            reveal_strlit("\\f");
            assert("\\f"@ =~= seq!['\\', 'f']);
        }
        out.append("\\f");
    } else if c == '\u{d}' {
        proof {
            reveal_strlit("\\r");
            assert("\\r"@ =~= seq!['\\', 'r']);
        }
        out.append("\\r");
    } else {
        proof {
            reveal_strlit("\\u00");
            assert("\\u00"@ =~= seq!['\\', 'u', '0', '0']);
        }
        out.append("\\u00");
        let code = c as u32;
        append_hex_digit(out, code / 16);
        append_hex_digit(out, code % 16);
        proof {
            assert(final(out)@ =~= old(out)@ + json_escaped_char(c));
        }
    }
}

/// The JSON string literal for `s`, quoted and escaped as the wire format
/// demands.
pub fn json_string_literal(s: &str) -> (out: String)
    ensures
        out@ == json_string(s@),
{
    let mut out = String::from_str("\"");
    proof {
        reveal_strlit("\"");
        assert(out@ =~= seq!['"'] + json_escaped(s@.take(0)));
    }
    let len = s.unicode_len();
    let mut i: usize = 0;
    while i < len
        invariant
            i <= len,
            len == s@.len(),
            out@ == seq!['"'] + json_escaped(s@.take(i as int)),
        decreases len - i,
    {
        let c = s.get_char(i);
        let code = c as u32;
        if code < 0x20 || c == '"' || c == '\\' {
            append_escape(&mut out, c);
        } else {
            let piece = s.substring_char(i, i + 1);
            out.append(piece);
            proof {
                assert(piece@ =~= seq![c]);
            }
        }
        proof {
            assert(s@.take(i + 1 as int) =~= s@.take(i as int) + seq![c]);
            lemma_json_escaped_concat(s@.take(i as int), seq![c]);
            lemma_json_escaped_one(c);
            assert(out@ =~= seq!['"'] + json_escaped(s@.take(i + 1 as int)));
        }
        i += 1;
    }
    proof {
        reveal_strlit("\"");
        assert(s@.take(len as int) =~= s@);
    }
    out.append("\"");
    proof {
        assert(out@ =~= json_string(s@));
    }
    out
}

/// A file still pending upload has no JSON representation: it serializes as
/// `null`, whatever path or bytes it holds.
pub fn input_file_json(_file: &InputFile) -> (out: String)
    ensures
        out@ == "null"@,
{
    String::from_str("null")
}

/// The JSON value of a file-upload field: a reference is a plain JSON string,
/// a pending file degrades to `null` (its name and bytes do not reach the
/// output).
pub fn file_upload_json(upload: &FileUpload) -> (out: String)
    ensures
        match *upload {
            FileUpload::String(reference) => out@ == json_string(reference@),
            FileUpload::InputFile(_) => out@ == "null"@,
        },
{
    match upload {
        FileUpload::String(reference) => json_string_literal(reference.as_str()),
        FileUpload::InputFile(file) => input_file_json(file),
    }
}

/// The shapes a file field can take in parsed JSON when a structure is read
/// back from the remote side: a string, a record of key/value entries, or no
/// usable value at all (JSON `null` or an absent optional).
pub enum FileFieldValue {
    Text(String),
    Record(Vec<(String, String)>),
    Absent,
}

/// Why reading a file field back can fail.
#[derive(Clone, Copy, Debug, PartialEq, Eq, Structural)]
pub enum FileFieldError {
    /// A record without a `path` entry does not name a file.
    MissingPath,
    /// A unit or absent value is the wrong shape for a file field.
    InvalidType,
}

/// The value of the last `path` entry of a record, if any: a later entry
/// overwrites an earlier one, and every other key is ignored.
pub open spec fn last_path_value(entries: Seq<(String, String)>) -> Option<Seq<char>>
    decreases entries.len(),
{
    if entries.len() == 0 {
        None
    } else if entries.last().0@ == "path"@ {
        Some(entries.last().1@)
    } else {
        last_path_value(entries.drop_last())
    }
}

/// What reading a file field yields: a string names a path; a record must
/// carry a `path` entry; an absent value is the wrong shape.
pub open spec fn parsed_file_field(v: FileFieldValue) -> Result<InputFileView, FileFieldError> {
    match v {
        FileFieldValue::Text(path) => Ok(InputFileView::Path(path@)),
        FileFieldValue::Record(entries) => match last_path_value(entries@) {
            Some(path) => Ok(InputFileView::Path(path)),
            None => Err(FileFieldError::MissingPath),
        },
        FileFieldValue::Absent => Err(FileFieldError::InvalidType),
    }
}

/// Read a file field back from its parsed JSON shape.
pub fn read_file_field(v: &FileFieldValue) -> (r: Result<InputFile, FileFieldError>)
    ensures
        match r {
            Ok(file) => parsed_file_field(*v) == Ok::<InputFileView, FileFieldError>(file@),
            Err(e) => parsed_file_field(*v) == Err::<InputFileView, FileFieldError>(e),
        },
{
    match v {
        FileFieldValue::Text(path) => Ok(InputFile::Path(path.clone())),
        FileFieldValue::Record(entries) => {
            let path_key = String::from_str("path");
            let mut found: Option<String> = None;
            let n = entries.len();
            let mut i: usize = 0;
            while i < n
                invariant
                    n == entries@.len(),
                    i <= n,
                    path_key@ == "path"@,
                    match found {
                        Some(path) => last_path_value(entries@.take(i as int)) == Some(path@),
                        None => last_path_value(entries@.take(i as int)) is None,
                    },
                decreases n - i,
            {
                let entry = &entries[i];
                if entry.0 == path_key {
                    found = Some(entry.1.clone());
                }
                proof {
                    assert(entries@.take(i + 1 as int).drop_last() =~= entries@.take(i as int));
                    assert(entries@.take(i + 1 as int).last() == entries@[i as int]);
                }
                i += 1;
            }
            proof {
                assert(entries@.take(n as int) =~= entries@);
            }
            match found {
                Some(path) => Ok(InputFile::Path(path)),
                None => Err(FileFieldError::MissingPath),
            }
        },
        FileFieldValue::Absent => Err(FileFieldError::InvalidType),
    }
}

/// Law: a plain JSON string read back into a file field yields exactly the
/// value that [`InputFile::from_path`] constructs from the same path.
pub proof fn lemma_path_round_trip(path: String)
    ensures
        parsed_file_field(FileFieldValue::Text(path)) == Ok::<InputFileView, FileFieldError>(
            InputFileView::Path(path@),
        ),
{
}

} // verus!
