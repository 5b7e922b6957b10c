use vstd::prelude::*;

use crate::extract::{find_bytes, find_seq};
use crate::text::{decode_lossy, lossy_text};

verus! {

pub const LT: u8 = 60;

pub const GT: u8 = 62;

pub const SLASH: u8 = 47;

pub const QUESTION: u8 = 63;

pub const BANG: u8 = 33;

pub const DASH: u8 = 45;

/// The bytes `-->`, which end a comment.
pub open spec fn comment_end() -> Seq<u8> {
    seq![45u8, 45u8, 62u8]
}

fn comment_end_bytes() -> (r: Vec<u8>)
    ensures
        r@ == comment_end(),
{
    vec![45u8, 45u8, 62u8]
}

/// That a comment `<!--` starts at `i`.
pub open spec fn comment_at(s: Seq<u8>, i: int) -> bool {
    0 <= i && i + 3 < s.len() && s[i] == LT && s[i + 1] == BANG && s[i + 2] == DASH && s[i + 3]
        == DASH
}

/// One lexical unit of an XML document: a start tag, an end tag, or a run of
/// character data that is not all whitespace.
pub enum Token {
    Open(String),
    Close(String),
    Text(String),
}

/// What a token stands for, with its text as characters.
pub enum TokenV {
    Open(Seq<char>),
    Close(Seq<char>),
    Text(Seq<char>),
}

impl Token {
    pub open spec fn view(&self) -> TokenV {
        match self {
            Token::Open(n) => TokenV::Open(n@),
            Token::Close(n) => TokenV::Close(n@),
            Token::Text(t) => TokenV::Text(t@),
        }
    }
}

pub open spec fn tokens_view(t: Seq<Token>) -> Seq<TokenV> {
    t.map_values(|x: Token| x.view())
}

pub open spec fn is_space(b: u8) -> bool {
    b == 32 || b == 9 || b == 10 || b == 13
}

/// The first index at or after `i` that holds `b`, or the length when none does.
pub open spec fn find_from(s: Seq<u8>, i: int, b: u8) -> int
    decreases s.len() - i,
{
    if i < 0 || i >= s.len() {
        s.len() as int
    } else if s[i] == b {
        i
    } else {
        find_from(s, i + 1, b)
    }
}

/// The end of a tag name that starts at `i` inside a tag that closes at `j`.
pub open spec fn name_end(s: Seq<u8>, i: int, j: int) -> int
    decreases j - i,
{
    if i < 0 || i >= j || j > s.len() {
        j
    } else if is_space(s[i]) || s[i] == SLASH {
        i
    } else {
        name_end(s, i + 1, j)
    }
}

pub open spec fn all_space(s: Seq<u8>) -> bool {
    forall|k: int| 0 <= k < s.len() ==> is_space(#[trigger] s[k])
}

pub open spec fn prepend(a: Seq<TokenV>, rest: Option<Seq<TokenV>>) -> Option<Seq<TokenV>> {
    match rest {
        Some(r) => Some(a + r),
        None => None,
    }
}

/// The tokens of `s` from index `i` on, or `None` where the text is not a
/// sequence of tags and character data.
///
/// A comment is skipped up to its `-->`; any other tag that starts with `<?`
/// or `<!` (a declaration, a processing instruction) is skipped up to `>`; `<a/>` gives a start
/// and an end tag; attributes are read past; whitespace-only text is dropped.
pub open spec fn lex_from(s: Seq<u8>, i: int) -> Option<Seq<TokenV>>
    decreases s.len() - i,
{
    if i < 0 || i >= s.len() {
        Some(Seq::empty())
    } else if comment_at(s, i) {
        let k = find_seq(s, i + 4, comment_end());
        if k < i + 4 || k + 3 > s.len() {
            None
        } else {
            lex_from(s, k + 3)
        }
    } else if s[i] == LT {
        let j = find_from(s, i + 1, GT);
        if j >= s.len() || j <= i + 1 {
            None
        } else if s[i + 1] == QUESTION || s[i + 1] == BANG {
            lex_from(s, j + 1)
        } else if s[i + 1] == SLASH {
            let e = name_end(s, i + 2, j);
            if e <= i + 2 {
                None
            } else {
                prepend(
                    seq![TokenV::Close(lossy_text(s.subrange(i + 2, e)))],
                    lex_from(s, j + 1),
                )
            }
        } else {
            let e = name_end(s, i + 1, j);
            let n = lossy_text(s.subrange(i + 1, e));
            if e <= i + 1 {
                None
            } else if s[j - 1] == SLASH {
                prepend(seq![TokenV::Open(n), TokenV::Close(n)], lex_from(s, j + 1))
            } else {
                prepend(seq![TokenV::Open(n)], lex_from(s, j + 1))
            }
        }
    } else {
        let j = find_from(s, i, LT);
        if j <= i || j > s.len() {
            None
        } else if all_space(s.subrange(i, j)) {
            lex_from(s, j)
        } else {
            prepend(seq![TokenV::Text(lossy_text(s.subrange(i, j)))], lex_from(s, j))
        }
    }
}

pub open spec fn lex(s: Seq<u8>) -> Option<Seq<TokenV>> {
    lex_from(s, 0)
}

fn find_byte(s: &[u8], i: usize, b: u8) -> (r: usize)
    requires
        i <= s@.len(),
    ensures
        r as int == find_from(s@, i as int, b),
        i <= r <= s@.len(),
{
    let mut k = i;
    while k < s.len()
        invariant
            i <= k <= s@.len(),
            find_from(s@, i as int, b) == find_from(s@, k as int, b),
        decreases s@.len() - k,
    {
        if s[k] == b {
            return k;
        }
        k += 1;
    }
    k
}

fn tag_name_end(s: &[u8], i: usize, j: usize) -> (r: usize)
    requires
        i <= j <= s@.len(),
    ensures
        r as int == name_end(s@, i as int, j as int),
        i <= r <= j,
{
    let mut k = i;
    while k < j
        invariant
            i <= k <= j,
            j <= s@.len(),
            name_end(s@, i as int, j as int) == name_end(s@, k as int, j as int),
        decreases j - k,
    {
        let c = s[k];
        if c == 32 || c == 9 || c == 10 || c == 13 || c == SLASH {
            return k;
        }
        k += 1;
    }
    k
}

fn only_space(s: &[u8], i: usize, j: usize) -> (r: bool)
    requires
        i <= j <= s@.len(),
    ensures
        r == all_space(s@.subrange(i as int, j as int)),
{
    let mut k = i;
    while k < j
        invariant
            i <= k <= j,
            j <= s@.len(),
            forall|m: int| i <= m < k ==> is_space(#[trigger] s@[m]),
        decreases j - k,
    {
        let c = s[k];
        if !(c == 32 || c == 9 || c == 10 || c == 13) {
            assert(!is_space(s@.subrange(i as int, j as int)[k - i]));
            return false;
        }
        k += 1;
    }
    assert forall|m: int| 0 <= m < j - i implies is_space(#[trigger] s@.subrange(i as int, j as int)[m]) by {
        assert(s@.subrange(i as int, j as int)[m] == s@[i + m]);
    }
    true
}

/// Splits a document into tokens.
pub fn tokenize(s: &[u8]) -> (r: Option<Vec<Token>>)
    ensures
        match r {
            Some(t) => lex(s@) == Some(tokens_view(t@)),
            None => lex(s@) is None,
        },
{
    let end = comment_end_bytes();
    let mut acc: Vec<Token> = Vec::new();
    let mut i: usize = 0;
    while i < s.len()
        invariant
            i <= s@.len(),
            end@ == comment_end(),
            lex(s@) == prepend(tokens_view(acc@), lex_from(s@, i as int)),
        decreases s@.len() - i,
    {
        let ghost before = tokens_view(acc@);
        if s.len() - i > 3 && s[i] == LT && s[i + 1] == BANG && s[i + 2] == DASH && s[i + 3]
            == DASH {
            let k = find_bytes(s, i + 4, &end);
            if s.len() - k < 3 {
                return None;
            }
            i = k + 3;
        } else if s[i] == LT {
            let j = find_byte(s, i + 1, GT);
            if j >= s.len() || j <= i + 1 {
                return None;
            }
            if s[i + 1] == QUESTION || s[i + 1] == BANG {
                i = j + 1;
            } else if s[i + 1] == SLASH {
                let e = tag_name_end(s, i + 2, j);
                if e <= i + 2 {
                    return None;
                }
                let n = decode_lossy(&s[i + 2..e]);
                acc.push(Token::Close(n));
                assert(tokens_view(acc@) =~= before + seq![TokenV::Close(n@)]);
                i = j + 1;
            } else {
                let e = tag_name_end(s, i + 1, j);
                if e <= i + 1 {
                    return None;
                }
                let n = decode_lossy(&s[i + 1..e]);
                if s[j - 1] == SLASH {
                    let n2 = n.clone();
                    acc.push(Token::Open(n));
                    acc.push(Token::Close(n2));
                    assert(tokens_view(acc@) =~= before + seq![TokenV::Open(n@), TokenV::Close(n@)]);
                } else {
                    acc.push(Token::Open(n));
                    assert(tokens_view(acc@) =~= before + seq![TokenV::Open(n@)]);
                }
                i = j + 1;
            }
        } else {
            let j = find_byte(s, i, LT);
            if j <= i {
                return None;
            }
            if !only_space(s, i, j) {
                let t = decode_lossy(&s[i..j]);
                acc.push(Token::Text(t));
                assert(tokens_view(acc@) =~= before + seq![TokenV::Text(t@)]);
            }
            i = j;
        }
    }
    assert(tokens_view(acc@) + Seq::<TokenV>::empty() =~= tokens_view(acc@));
    Some(acc)
}

} // verus!
