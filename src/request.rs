//! Requests: parsing the raw text of a request, and named captures.
use vstd::prelude::*;
use crate::matcher::{named_captures, opt_view, Path};

verus! {

/// The characters that Unicode calls white space; a request line is split
/// on runs of them.
pub open spec fn is_space(c: char) -> bool {
    ||| '\t' <= c <= '\r'
    ||| c == ' '
    ||| c == '\u{85}'
    ||| c == '\u{a0}'
    ||| c == '\u{1680}'
    ||| '\u{2000}' <= c <= '\u{200a}'
    ||| c == '\u{2028}'
    ||| c == '\u{2029}'
    ||| c == '\u{202f}'
    ||| c == '\u{205f}'
    ||| c == '\u{3000}'
}

/// The first index at or after `i` that is not white space (or the end).
pub open spec fn skip_space(s: Seq<char>, i: nat) -> nat
    decreases s.len() - i,
{
    if i < s.len() && is_space(s[i as int]) {
        skip_space(s, i + 1)
    } else {
        i
    }
}

/// The first index at or after `i` that is white space (or the end).
pub open spec fn skip_word(s: Seq<char>, i: nat) -> nat
    decreases s.len() - i,
{
    if i < s.len() && !is_space(s[i as int]) {
        skip_word(s, i + 1)
    } else {
        i
    }
}

/// Whether a blank line, `\r\n\r\n`, starts at `i`.
pub open spec fn blank_at(s: Seq<char>, i: int) -> bool {
    &&& 0 <= i
    &&& i + 4 <= s.len()
    &&& s[i] == '\r'
    &&& s[i + 1] == '\n'
    &&& s[i + 2] == '\r'
    &&& s[i + 3] == '\n'
}

/// The first index at or after `i` where a blank line starts.
pub open spec fn find_blank(s: Seq<char>, i: nat) -> Option<nat>
    decreases s.len() - i,
{
    if i + 4 > s.len() {
        None
    } else if blank_at(s, i as int) {
        Some(i)
    } else {
        find_blank(s, i + 1)
    }
}

/// Where `find_blank` finds a blank line, it starts at or after `i`.
pub proof fn lemma_find_blank_found(s: Seq<char>, i: nat)
    ensures
        find_blank(s, i) is Some ==> {
            let k = find_blank(s, i)->Some_0;
            i <= k && blank_at(s, k as int)
        },
    decreases s.len() - i,
{
    if i + 4 <= s.len() && !blank_at(s, i as int) {
        lemma_find_blank_found(s, i + 1);
    }
}

/// The part before the first blank line (all of it where there is none).
pub open spec fn head(s: Seq<char>) -> Seq<char> {
    match find_blank(s, 0) {
        Some(k) => s.subrange(0, k as int),
        None => s,
    }
}

/// Everything after the first blank line, if there is one.
pub open spec fn body_of(s: Seq<char>) -> Option<Seq<char>> {
    match find_blank(s, 0) {
        Some(k) => Some(s.subrange(k + 4 as int, s.len() as int)),
        None => None,
    }
}

pub open spec fn method_start(s: Seq<char>) -> nat {
    skip_space(head(s), 0)
}

pub open spec fn method_end(s: Seq<char>) -> nat {
    skip_word(head(s), method_start(s))
}

pub open spec fn path_start(s: Seq<char>) -> nat {
    skip_space(head(s), method_end(s))
}

pub open spec fn path_end(s: Seq<char>) -> nat {
    skip_word(head(s), path_start(s))
}

/// A request can be read from `s` iff its head holds at least two words.
pub open spec fn parses(s: Seq<char>) -> bool {
    path_start(s) < head(s).len()
}

/// The first word of the head.
pub open spec fn method_of(s: Seq<char>) -> Seq<char> {
    head(s).subrange(method_start(s) as int, method_end(s) as int)
}

/// The second word of the head.
pub open spec fn path_of(s: Seq<char>) -> Seq<char> {
    head(s).subrange(path_start(s) as int, path_end(s) as int)
}

/// The last entry of a sequence of captures, or `None` where it is empty.
pub open spec fn last_capture(caps: Seq<Option<Seq<char>>>) -> Option<Seq<char>> {
    if caps.len() == 0 {
        None
    } else {
        caps.last()
    }
}

/// What `get_param(name)` gives on a request whose path is `path` and whose
/// matched route used `matched`.
pub open spec fn param_of(matched: Option<Path>, path: Seq<char>, name: Seq<char>) -> Option<
    Seq<char>,
> {
    match matched {
        Some(Path::Rex(re)) => last_capture(named_captures(re@, path, name)),
        _ => None,
    }
}

/// A request: method and path as received, the optional body, and the
/// matcher of the route that took it (set by the dispatcher).
pub struct Request {
    pub body: Option<String>,
    pub method: String,
    pub path: String,
    pub matched_path: Option<Path>,
}

/// Relies on `String::from_utf8_lossy`: the text depends on the bytes alone.
#[verifier::external_body]
fn decode_lossy(bytes: &[u8]) -> (r: String)
    ensures
        r@ == lossy_text(bytes@),
{
    String::from_utf8_lossy(bytes).into_owned()
}

/// The text `String::from_utf8_lossy` makes of `bytes`: invalid sequences
/// become U+FFFD.
pub uninterp spec fn lossy_text(bytes: Seq<u8>) -> Seq<char>;

/// The text of a raw request buffer.
pub fn request_text(bytes: &[u8]) -> (r: String)
    ensures
        r@ == lossy_text(bytes@),
{
    decode_lossy(bytes)
}

/// Whether `c` is white space.
pub fn is_space_char(c: char) -> (r: bool)
    ensures
        r == is_space(c),
{
    ('\t' <= c && c <= '\r') || c == ' ' || c == '\u{85}' || c == '\u{a0}' || c == '\u{1680}' || (
    '\u{2000}' <= c && c <= '\u{200a}') || c == '\u{2028}' || c == '\u{2029}' || c == '\u{202f}'
        || c == '\u{205f}' || c == '\u{3000}'
}

fn skip_space_exec(s: &Vec<char>, i: usize) -> (r: usize)
    requires
        i <= s@.len(),
    ensures
        r == skip_space(s@, i as nat),
        i <= r <= s@.len(),
{
    let mut j = i;
    while j < s.len() && is_space_char(s[j])
        invariant
            i <= j <= s@.len(),
            skip_space(s@, j as nat) == skip_space(s@, i as nat),
        decreases s@.len() - j,
    {
        j = j + 1;
    }
    j
}

fn skip_word_exec(s: &Vec<char>, i: usize) -> (r: usize)
    requires
        i <= s@.len(),
    ensures
        r == skip_word(s@, i as nat),
        i <= r <= s@.len(),
{
    let mut j = i;
    while j < s.len() && !is_space_char(s[j])
        invariant
            i <= j <= s@.len(),
            skip_word(s@, j as nat) == skip_word(s@, i as nat),
        decreases s@.len() - j,
    {
        j = j + 1;
    }
    j
}

fn find_blank_exec(s: &Vec<char>) -> (r: Option<usize>)
    ensures
        match r {
            Some(k) => find_blank(s@, 0) == Some(k as nat) && k + 4 <= s@.len(),
            None => find_blank(s@, 0) is None,
        },
{
    let mut i: usize = 0;
    proof {
        lemma_find_blank_found(s@, 0);
    }
    while i < s.len() && s.len() - i >= 4
        invariant
            i <= s@.len(),
            find_blank(s@, i as nat) == find_blank(s@, 0),
        decreases s@.len() - i,
    {
        if s[i] == '\r' && s[i + 1] == '\n' && s[i + 2] == '\r' && s[i + 3] == '\n' {
            return Some(i);
        }
        i = i + 1;
    }
    None
}

fn chars_of(text: &str) -> (r: Vec<char>)
    ensures
        r@ == text@,
{
    let n = text.unicode_len();
    let mut out: Vec<char> = Vec::new();
    let mut i: usize = 0;
    while i < n
        invariant
            n == text@.len(),
            i <= n,
            out@ == text@.subrange(0, i as int),
        decreases n - i,
    {
        out.push(text.get_char(i));
        i = i + 1;
    }
    out
}

impl Request {
    /// Reads a request from its text: method and path are the first two
    /// words before the first blank line, the body is all that follows that
    /// blank line. `None` when the head holds fewer than two words.
    pub fn new(text: &str) -> (r: Option<Request>)
        ensures
            r is Some <==> parses(text@),
            r is Some ==> {
                let q = r->Some_0;
                &&& q.method@ == method_of(text@)
                &&& q.path@ == path_of(text@)
                &&& opt_view(q.body) == body_of(text@)
                &&& q.matched_path is None
            },
    {
        let s = chars_of(text);
        let n = s.len();
        let blank = find_blank_exec(&s);
        let head_len: usize = match blank {
            Some(k) => k,
            None => s.len(),
        };
        let body = match blank {
            Some(k) => {
                Some(String::from_str(text.substring_char(k + 4, n)))
            },
            None => None,
        };
        let ghost h = head(text@);
        let mut hs: Vec<char> = Vec::new();
        let mut i: usize = 0;
        while i < head_len
            invariant
                head_len <= s@.len(),
                i <= head_len,
                hs@ == s@.subrange(0, i as int),
            decreases head_len - i,
        {
            hs.push(s[i]);
            i = i + 1;
        }
        assert(hs@ =~= h);
        let ms = skip_space_exec(&hs, 0);
        let me = skip_word_exec(&hs, ms);
        let ps = skip_space_exec(&hs, me);
        if ps >= hs.len() {
            return None;
        }
        let pe = skip_word_exec(&hs, ps);
        let method = String::from_str(text.substring_char(ms, me));
        let path = String::from_str(text.substring_char(ps, pe));
        assert(method@ =~= method_of(text@));
        assert(path@ =~= path_of(text@));
        Some(Request { body, method, path, matched_path: None })
    }

    /// The text of the capture group `name` in the last match of the matched
    /// route's pattern against the path; `None` when the request was not
    /// matched by a pattern route, or that match left the group out.
    pub fn get_param(&self, name: &str) -> (r: Option<String>)
        ensures
            opt_view(r) == param_of(self.matched_path, self.path@, name@),
    {
        match &self.matched_path {
            Some(Path::Rex(re)) => {
                let caps = re.named_captures(self.path.as_str(), name);
                if caps.len() == 0 {
                    None
                } else {
                    let last = caps.len() - 1;
                    match &caps[last] {
                        Some(s) => Some(s.clone()),
                        None => None,
                    }
                }
            },
            _ => None,
        }
    }
}

} // verus!
