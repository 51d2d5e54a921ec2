//! Deriving an output file name from an input path: the file stem of the
//! input, with its last extension stripped and `.mp3` appended.

use vstd::prelude::*;
use vstd::string::StrSliceExecFns;
use vstd::string::StringExecFns;
use crate::TranscodeError;

verus! {

/// Index of the last occurrence of `c` in `s`, or -1 when `c` does not occur.
pub open spec fn last_pos(s: Seq<char>, c: char) -> int
    decreases s.len(),
{
    if s.len() == 0 {
        -1
    } else if s[s.len() - 1] == c {
        s.len() - 1
    } else {
        last_pos(s.take(s.len() - 1), c)
    }
}

/// The file-name part of a path: everything after the last `/`, or the whole
/// path when it holds no `/`.
pub open spec fn file_name_of(path: Seq<char>) -> Seq<char> {
    path.skip(last_pos(path, '/') + 1)
}

/// The file stem of a path: its file-name part without the last extension.
/// A dot at the very start of the name opens no extension, so a name such as
/// `.profile` is kept whole; only a dot strictly inside the name cuts it.
pub open spec fn file_stem_of(path: Seq<char>) -> Seq<char> {
    let name = file_name_of(path);
    let d = last_pos(name, '.');
    if d <= 0 {
        name
    } else {
        name.take(d)
    }
}

/// Whether a path has an extractable file stem: its file-name part must be
/// non-empty (so neither the empty path nor a path ending in `/` qualifies)
/// and must name a file rather than the directories `.` or `..`.
pub open spec fn has_file_stem(path: Seq<char>) -> bool {
    let name = file_name_of(path);
    &&& name.len() > 0
    &&& name != seq!['.']
    &&& name != seq!['.', '.']
}

/// `last_pos` names the last occurrence indeed: it stays inside the sequence,
/// it lands on `c` whenever it is non-negative, and no later index holds `c`.
proof fn lemma_last_pos_bounds(s: Seq<char>, c: char)
    ensures
        -1 <= last_pos(s, c) < s.len(),
        last_pos(s, c) >= 0 ==> s[last_pos(s, c)] == c,
        forall|j: int| last_pos(s, c) < j < s.len() ==> s[j] != c,
    decreases s.len(),
{
    if s.len() == 0 {
    } else if s[s.len() - 1] == c {
    } else {
        lemma_last_pos_bounds(s.take(s.len() - 1), c);
        assert forall|j: int| last_pos(s, c) < j < s.len() implies s[j] != c by {
            if j < s.len() - 1 {
                assert(s.take(s.len() - 1)[j] != c);
            }
        }
    }
}

proof fn lemma_last_pos_step(s: Seq<char>, c: char, i: int)
    requires
        0 <= i < s.len(),
    ensures
        last_pos(s.take(i + 1), c) == if s[i] == c {
            i
        } else {
            last_pos(s.take(i), c)
        },
{
    let t = s.take(i + 1);
    assert(t.take(i) =~= s.take(i));
}

/// Index one past the last occurrence of `c` in `s`, or 0 when there is none.
fn scan_past_last(s: &str, c: char) -> (r: usize)
    ensures
        r == last_pos(s@, c) + 1,
        r <= s@.len(),
{
    let n = s.unicode_len();
    let mut i: usize = 0;
    let mut r: usize = 0;
    while i < n
        invariant
            i <= n,
            n == s@.len(),
            r == last_pos(s@.take(i as int), c) + 1,
            r <= i,
        decreases n - i,
    {
        proof {
            lemma_last_pos_step(s@, c, i as int);
        }
        if s.get_char(i) == c {
            r = i + 1;
        }
        i += 1;
    }
    proof {
        assert(s@.take(n as int) =~= s@);
    }
    r
}

/// The file stem of `filename`: any directory part is dropped, and the last
/// extension is stripped; a name without an extension is kept unchanged.
/// The caller must hand in a path that has a file stem at all; use
/// [`default_output_name`] for a path that may lack one.
pub fn remove_extension(filename: &str) -> (r: String)
    requires
        has_file_stem(filename@),
    ensures
        r@ == file_stem_of(filename@),
{
    let n = filename.unicode_len();
    let start = scan_past_last(filename, '/');
    proof {
        lemma_last_pos_bounds(filename@, '/');
    }
    let name_str = filename.substring_char(start, n);
    proof {
        assert(name_str@ =~= file_name_of(filename@));
    }
    let dot = scan_past_last(name_str, '.');
    let stem_str = if dot <= 1 {
        name_str
    } else {
        name_str.substring_char(0, dot - 1)
    };
    proof {
        assert(stem_str@ =~= file_stem_of(filename@));
    }
    String::from_str(stem_str)
}

/// The output path used when the caller supplies none: the input's file stem
/// with `.mp3` appended. Returns `InvalidNameError` exactly when no file stem
/// can be extracted from the input path (an empty path, a path ending in `/`,
/// or one naming only the directories `.` or `..`).
pub fn default_output_name(input_path: &str) -> (r: Result<String, TranscodeError>)
    ensures
        r is Ok <==> has_file_stem(input_path@),
        r is Ok ==> r->Ok_0@ == file_stem_of(input_path@) + ".mp3"@,
        r is Err ==> r->Err_0 == TranscodeError::InvalidNameError,
{
    let n = input_path.unicode_len();
    let start = scan_past_last(input_path, '/');
    proof {
        lemma_last_pos_bounds(input_path@, '/');
        assert(input_path@.skip(start as int) =~= file_name_of(input_path@));
    }
    let name_len: usize = n - start;
    let ghost name = file_name_of(input_path@);
    if name_len == 0 {
        proof {
            assert(!has_file_stem(input_path@));
        }
        return Err(TranscodeError::InvalidNameError);
    }
    if name_len == 1 && input_path.get_char(start) == '.' {
        proof {
            assert(name =~= seq!['.']);
        }
        return Err(TranscodeError::InvalidNameError);
    }
    if name_len == 2 && input_path.get_char(start) == '.' && input_path.get_char(start + 1) == '.' {
        proof {
            assert(name =~= seq!['.', '.']);
        }
        return Err(TranscodeError::InvalidNameError);
    }
    proof {
        assert(name.len() > 0);
        assert(name != seq!['.']) by {
            if name == seq!['.'] {
                assert(name.len() == 1);
                assert(name[0] == '.');
            }
        }
        assert(name != seq!['.', '.']) by {
            if name == seq!['.', '.'] {
                assert(name.len() == 2);
                assert(name[0] == '.');
                assert(name[1] == '.');
            }
        }
    }
    let mut out = remove_extension(input_path);
    out.append(".mp3");
    Ok(out)
}

} // verus!
