//! Repository values: where a repository comes from, the file blobs read
//! from its tree, commit authorship, and the reading of `git verify-commit
//! --raw` status output.
use vstd::prelude::*;
use vstd::string::*;
use vstd::utf8::{valid_utf8, decode_utf8, encode_utf8_decode_utf8};
use std::path::PathBuf;
use crate::text::str_eq;

verus! {

#[verifier::external_type_specification]
#[verifier::external_body]
pub struct ExPathBuf(PathBuf);

/// Where a repository comes from.
#[derive(Debug)]
pub enum RepoSource {
    Local(PathBuf),
    Remote { url: String, local_path: PathBuf },
}

/// A single file blob retrieved from the repository tree.
#[derive(Debug)]
pub struct FileEntry {
    pub path: PathBuf,
    pub content: Vec<u8>,
}

/// `std::str::from_utf8`: documented to succeed exactly on valid UTF-8, with a
/// string slice over the same bytes.
#[verifier::external_body]
fn str_from_utf8(bytes: &[u8]) -> (r: Option<&str>)
    ensures
        r is Some <==> valid_utf8(bytes@),
        r matches Some(s) ==> s.spec_bytes() == bytes@,
{
    std::str::from_utf8(bytes).ok()
}

impl FileEntry {
    /// The content as text, when it is valid UTF-8.
    pub fn content_str(&self) -> (r: Option<&str>)
        ensures
            r is Some <==> valid_utf8(self.content@),
            r matches Some(s) ==> s@ == decode_utf8(self.content@),
    {
        let r = str_from_utf8(self.content.as_slice());
        proof {
            if let Some(s) = r {
                encode_utf8_decode_utf8(s@);
            }
        }
        r
    }
}

/// Author identity used when creating commits.
#[derive(Debug, Clone)]
pub struct CommitAuthor {
    pub name: String,
    pub email: String,
}

impl Default for CommitAuthor {
    fn default() -> (r: Self)
        ensures
            r.name@ == "Mnemosyne"@,
            r.email@ == "mnemosyne@local"@,
    {
        Self { name: "Mnemosyne".to_owned(), email: "mnemosyne@local".to_owned() }
    }
}

// ── Reading `git verify-commit --raw` ──────────────────────────────────────

/// Whitespace in the sense of Unicode's `White_Space` property.
pub open spec fn is_ws_char(c: char) -> bool {
    crate::text::is_white_space(c)
}

/// The position of the first `\n` at or after `i`, or the length.
pub open spec fn first_newline(s: Seq<char>, i: int) -> int
    decreases s.len() - i,
{
    if i < 0 || i >= s.len() {
        s.len() as int
    } else if s[i] == '\n' {
        i
    } else {
        first_newline(s, i + 1)
    }
}

pub proof fn lemma_first_newline(s: Seq<char>, i: int)
    requires
        0 <= i <= s.len(),
    ensures
        i <= first_newline(s, i) <= s.len(),
    decreases s.len() - i,
{
    if i < s.len() && s[i] != '\n' {
        lemma_first_newline(s, i + 1);
    }
}

/// A line without the `\r` of a `\r\n` ending.
pub open spec fn strip_cr(line: Seq<char>) -> Seq<char> {
    if line.len() > 0 && line.last() == '\r' {
        line.drop_last()
    } else {
        line
    }
}

/// The lines of `s`: split at `\n`, a `\r` before the `\n` dropped, and no
/// empty line after a final `\n`.
pub open spec fn lines_spec(s: Seq<char>) -> Seq<Seq<char>>
    decreases s.len(),
{
    if s.len() == 0 {
        Seq::empty()
    } else {
        let i = first_newline(s, 0);
        proof {
            lemma_first_newline(s, 0);
        }
        if i >= s.len() {
            seq![s]
        } else {
            seq![strip_cr(s.subrange(0, i))] + lines_spec(s.subrange(i + 1, s.len() as int))
        }
    }
}

/// Number of characters before the first whitespace in `s`.
pub open spec fn word_len(s: Seq<char>) -> int
    decreases s.len(),
{
    if s.len() > 0 && !is_ws_char(s[0]) {
        1 + word_len(s.drop_first())
    } else {
        0
    }
}

pub proof fn lemma_word_len(s: Seq<char>)
    ensures
        0 <= word_len(s) <= s.len(),
        s.len() > 0 && !is_ws_char(s[0]) ==> word_len(s) >= 1,
    decreases s.len(),
{
    if s.len() > 0 && !is_ws_char(s[0]) {
        lemma_word_len(s.drop_first());
    }
}

pub proof fn lemma_leading_ws(s: Seq<char>)
    ensures
        0 <= crate::text::leading_ws(s) <= s.len(),
        crate::text::leading_ws(s) < s.len() ==> !is_ws_char(s[crate::text::leading_ws(s)]),
    decreases s.len(),
{
    if s.len() > 0 && is_ws_char(s[0]) {
        lemma_leading_ws(s.drop_first());
    }
}

/// The maximal runs of non-whitespace characters of `s`.
pub open spec fn words_spec(s: Seq<char>) -> Seq<Seq<char>>
    decreases s.len(),
{
    proof {
        lemma_leading_ws(s);
    }
    let t = s.subrange(crate::text::leading_ws(s), s.len() as int);
    if t.len() == 0 {
        Seq::empty()
    } else {
        let w = word_len(t);
        proof {
            lemma_word_len(t);
        }
        seq![t.subrange(0, w)] + words_spec(t.subrange(w, t.len() as int))
    }
}

/// `str::lines`, collected.
#[verifier::external_body]
fn split_lines(s: &str) -> (r: Vec<&str>)
    ensures
        r@.map_values(|l: &str| l@) == lines_spec(s@),
{
    s.lines().collect()
}

/// `str::split_whitespace`, collected.
#[verifier::external_body]
fn split_words(s: &str) -> (r: Vec<&str>)
    ensures
        r@.map_values(|w: &str| w@) == words_spec(s@),
{
    s.split_whitespace().collect()
}

/// Whether `s` begins with `prefix`.
fn starts_with(s: &str, prefix: &str) -> (r: bool)
    ensures
        r == (prefix@.len() <= s@.len() && s@.subrange(0, prefix@.len() as int) == prefix@),
{
    let n = prefix.unicode_len();
    let m = s.unicode_len();
    if n > m {
        return false;
    }
    let mut i: usize = 0;
    while i < n
        invariant
            i <= n <= m,
            n == prefix@.len(),
            m == s@.len(),
            forall|j: int| 0 <= j < i ==> s@[j] == prefix@[j],
        decreases n - i,
    {
        if s.get_char(i) != prefix.get_char(i) {
            assert(s@.subrange(0, n as int)[i as int] != prefix@[i as int]);
            return false;
        }
        i = i + 1;
    }
    assert(s@.subrange(0, n as int) =~= prefix@);
    true
}

/// What one status line does to `(fingerprint, good signature)`.
pub open spec fn status_step(st: (Option<Seq<char>>, bool), line: Seq<char>) -> (Option<Seq<char>>, bool) {
    let ws = words_spec(line);
    if !("[GNUPG:]"@.len() <= line.len() && line.subrange(0, "[GNUPG:]"@.len() as int) == "[GNUPG:]"@)
        || ws.len() < 3 {
        st
    } else if ws[1] == "VALIDSIG"@ {
        (Some(ws[2]), st.1)
    } else if ws[1] == "GOODSIG"@ {
        (st.0, true)
    } else if ws[1] == "BADSIG"@ {
        (st.0, false)
    } else {
        st
    }
}

/// The status that the lines give, read in order from `(None, false)`.
pub open spec fn status_of_lines(ls: Seq<Seq<char>>) -> (Option<Seq<char>>, bool)
    decreases ls.len(),
{
    if ls.len() == 0 {
        (None, false)
    } else {
        status_step(status_of_lines(ls.drop_last()), ls.last())
    }
}

pub open spec fn opt_string_view(o: Option<String>) -> Option<Seq<char>> {
    match o {
        Some(s) => Some(s@),
        None => None,
    }
}

/// Read the `[GNUPG:]` status lines that `git verify-commit --raw` prints: the
/// fingerprint of the last `VALIDSIG` line, and whether the last `GOODSIG` or
/// `BADSIG` line was `GOODSIG`.
pub fn signature_status(status_text: &str) -> (r: (Option<String>, bool))
    ensures
        (opt_string_view(r.0), r.1) == status_of_lines(lines_spec(status_text@)),
{
    let lines = split_lines(status_text);
    let ghost ls = lines_spec(status_text@);
    let mut fingerprint: Option<String> = None;
    let mut good_sig = false;
    let mut i: usize = 0;
    assert(ls.subrange(0, 0) =~= Seq::<Seq<char>>::empty());
    while i < lines.len()
        invariant
            i <= lines.len(),
            lines@.map_values(|l: &str| l@) == ls,
            (opt_string_view(fingerprint), good_sig) == status_of_lines(ls.subrange(0, i as int)),
        decreases lines.len() - i,
    {
        let line = lines[i];
        assert(ls.subrange(0, i + 1).drop_last() =~= ls.subrange(0, i as int));
        assert(ls.subrange(0, i + 1).last() == line@);
        if starts_with(line, "[GNUPG:]") {
            let parts = split_words(line);
            if parts.len() >= 3 {
                assert(parts@.map_values(|w: &str| w@)[1] == parts[1]@);
                assert(parts@.map_values(|w: &str| w@)[2] == parts[2]@);
                if str_eq(parts[1], "VALIDSIG") {
                    fingerprint = Some(parts[2].to_owned());
                } else if str_eq(parts[1], "GOODSIG") {
                    good_sig = true;
                } else if str_eq(parts[1], "BADSIG") {
                    good_sig = false;
                }
            }
        }
        i = i + 1;
    }
    assert(ls.subrange(0, i as int) =~= ls);
    (fingerprint, good_sig)
}

} // verus!
