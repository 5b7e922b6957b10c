use vstd::prelude::*;

use crate::text::{same_text, trim_text, trimmed, unescape_text, unescaped};
use crate::xml::{tokens_view, Token, TokenV};

verus! {

/// The index of the end tag that closes an element whose content starts at
/// `i`, where `d` start tags inside it are still open; `-1` where none does.
pub open spec fn close_at(t: Seq<TokenV>, i: int, d: nat) -> int
    decreases t.len() - i,
{
    if i < 0 || i >= t.len() {
        -1
    } else {
        match t[i] {
            TokenV::Open(_) => close_at(t, i + 1, d + 1),
            TokenV::Close(_) => if d == 0 {
                i
            } else {
                close_at(t, i + 1, (d - 1) as nat)
            },
            TokenV::Text(_) => close_at(t, i + 1, d),
        }
    }
}

/// The index of the end tag of the element whose start tag stands at `i`, when
/// that end tag carries the same name; `-1` otherwise.
pub open spec fn element_end(t: Seq<TokenV>, i: int) -> int {
    if 0 <= i < t.len() {
        match t[i] {
            TokenV::Open(n) => {
                let c = close_at(t, i + 1, 0);
                if 0 <= c < t.len() && t[c] == TokenV::Close(n) {
                    c
                } else {
                    -1
                }
            },
            _ => -1,
        }
    } else {
        -1
    }
}

/// Where a child element stands: the span of its content, or a structural fault.
pub enum Found {
    Span(int, int),
    Absent,
    Broken,
}

/// The content span of the first element named `name` among the elements that
/// stand directly in the span `[i, hi)`.
pub open spec fn find_child(t: Seq<TokenV>, i: int, hi: int, name: Seq<char>) -> Found
    decreases hi - i,
{
    if i < 0 || hi > t.len() || i >= hi {
        Found::Absent
    } else {
        match t[i] {
            TokenV::Open(n) => {
                let c = element_end(t, i);
                if c <= i || c >= hi {
                    Found::Broken
                } else if n == name {
                    Found::Span(i + 1, c)
                } else {
                    find_child(t, c + 1, hi, name)
                }
            },
            TokenV::Close(_) => Found::Broken,
            TokenV::Text(_) => find_child(t, i + 1, hi, name),
        }
    }
}

/// The content spans of all elements named `name` that stand directly in the
/// span `[i, hi)`, in document order; `None` on a structural fault.
pub open spec fn find_children(t: Seq<TokenV>, i: int, hi: int, name: Seq<char>) -> Option<
    Seq<(int, int)>,
>
    decreases hi - i,
{
    if i < 0 || hi > t.len() || i >= hi {
        Some(Seq::empty())
    } else {
        match t[i] {
            TokenV::Open(n) => {
                let c = element_end(t, i);
                if c <= i || c >= hi {
                    None
                } else {
                    match find_children(t, c + 1, hi, name) {
                        Some(rest) => if n == name {
                            Some(seq![(i + 1, c)] + rest)
                        } else {
                            Some(rest)
                        },
                        None => None,
                    }
                }
            },
            TokenV::Close(_) => None,
            TokenV::Text(_) => find_children(t, i + 1, hi, name),
        }
    }
}

/// The character data, without leading and trailing blanks and with the
/// predefined entities replaced, of an element whose content is the span
/// `[lo, hi)`:
/// empty content gives no characters; content with elements in it has none.
pub open spec fn leaf_text(t: Seq<TokenV>, lo: int, hi: int) -> Option<Seq<char>> {
    if lo == hi {
        Some(Seq::empty())
    } else if hi == lo + 1 && 0 <= lo < t.len() {
        match t[lo] {
            TokenV::Text(x) => Some(unescaped(trimmed(x))),
            _ => None,
        }
    } else {
        None
    }
}

/// The span of a whole document: its single root element named `name`, with
/// nothing but that element in the token sequence.
pub open spec fn root_span(t: Seq<TokenV>, name: Seq<char>) -> Option<(int, int)> {
    if t.len() >= 2 && t[0] == TokenV::Open(name) && element_end(t, 0) == t.len() - 1 {
        Some((1, t.len() - 1))
    } else {
        None
    }
}

fn closing_index(t: &Vec<Token>, i: usize) -> (r: Option<usize>)
    requires
        i <= t@.len(),
    ensures
        match r {
            Some(c) => c as int == close_at(tokens_view(t@), i as int, 0) && i <= c < t@.len(),
            None => close_at(tokens_view(t@), i as int, 0) == -1,
        },
{
    let ghost tv = tokens_view(t@);
    let mut k = i;
    let mut d: usize = 0;
    while k < t.len()
        invariant
            i <= k <= t@.len(),
            d <= k,
            tv == tokens_view(t@),
            close_at(tv, i as int, 0) == close_at(tv, k as int, d as nat),
        decreases t@.len() - k,
    {
        match &t[k] {
            Token::Open(_) => {
                d = d + 1;
            },
            Token::Close(_) => {
                if d == 0 {
                    return Some(k);
                }
                d = d - 1;
            },
            Token::Text(_) => {},
        }
        k += 1;
    }
    None
}

fn same_token_name(a: &Token, b: &Token) -> (r: bool)
    ensures
        r == (a.view() is Open && b.view() == TokenV::Close(a.view()->Open_0)),
{
    match (a, b) {
        (Token::Open(x), Token::Close(y)) => same_text(x.as_str(), y.as_str()),
        _ => false,
    }
}

/// The index of the end tag that matches the start tag at `i`.
pub fn end_of_element(t: &Vec<Token>, i: usize) -> (r: Option<usize>)
    requires
        i < t@.len(),
    ensures
        match r {
            Some(c) => c as int == element_end(tokens_view(t@), i as int) && i < c < t@.len(),
            None => element_end(tokens_view(t@), i as int) == -1,
        },
{
    let len = t.len();
    match &t[i] {
        Token::Open(_) => {
            if i + 1 == len {
                return None;
            }
            match closing_index(t, i + 1) {
                Some(c) => {
                    if same_token_name(&t[i], &t[c]) {
                        Some(c)
                    } else {
                        None
                    }
                },
                None => None,
            }
        },
        _ => None,
    }
}

/// The content span of the first element named `name` directly in `[lo, hi)`.
pub fn child(t: &Vec<Token>, lo: usize, hi: usize, name: &str) -> (r: Result<
    Option<(usize, usize)>,
    (),
>)
    requires
        hi <= t@.len(),
    ensures
        match r {
            Ok(Some((a, b))) => find_child(tokens_view(t@), lo as int, hi as int, name@)
                == Found::Span(a as int, b as int) && lo < a <= b < hi,
            Ok(None) => find_child(tokens_view(t@), lo as int, hi as int, name@) == Found::Absent,
            Err(_) => find_child(tokens_view(t@), lo as int, hi as int, name@) == Found::Broken,
        },
{
    let ghost tv = tokens_view(t@);
    let mut k = lo;
    while k < hi
        invariant
            lo <= k,
            hi <= t@.len(),
            tv == tokens_view(t@),
            find_child(tv, lo as int, hi as int, name@) == find_child(tv, k as int, hi as int, name@),
        decreases hi - k,
    {
        match &t[k] {
            Token::Open(n) => {
                match end_of_element(t, k) {
                    Some(c) => {
                        if c >= hi {
                            return Err(());
                        }
                        if same_text(n.as_str(), name) {
                            return Ok(Some((k + 1, c)));
                        }
                        k = c + 1;
                    },
                    None => {
                        return Err(());
                    },
                }
            },
            Token::Close(_) => {
                return Err(());
            },
            Token::Text(_) => {
                k += 1;
            },
        }
    }
    Ok(None)
}

pub open spec fn spans_view(v: Seq<(usize, usize)>) -> Seq<(int, int)> {
    v.map_values(|p: (usize, usize)| (p.0 as int, p.1 as int))
}

/// The content spans of every element named `name` directly in `[lo, hi)`.
pub fn children(t: &Vec<Token>, lo: usize, hi: usize, name: &str) -> (r: Option<
    Vec<(usize, usize)>,
>)
    requires
        hi <= t@.len(),
    ensures
        match r {
            Some(v) => find_children(tokens_view(t@), lo as int, hi as int, name@) == Some(
                spans_view(v@),
            ) && forall|j: int| #![trigger v@[j]] 0 <= j < v@.len() ==> v@[j].0 <= v@[j].1 < hi,
            None => find_children(tokens_view(t@), lo as int, hi as int, name@) is None,
        },
{
    let ghost tv = tokens_view(t@);
    let mut acc: Vec<(usize, usize)> = Vec::new();
    let mut k = lo;
    while k < hi
        invariant
            lo <= k,
            hi <= t@.len(),
            tv == tokens_view(t@),
            forall|j: int| #![trigger acc@[j]] 0 <= j < acc@.len() ==> acc@[j].0 <= acc@[j].1 < hi,
            find_children(tv, lo as int, hi as int, name@) == match find_children(
                tv,
                k as int,
                hi as int,
                name@,
            ) {
                Some(rest) => Some(spans_view(acc@) + rest),
                None => None,
            },
        decreases hi - k,
    {
        let ghost before = spans_view(acc@);
        match &t[k] {
            Token::Open(n) => {
                match end_of_element(t, k) {
                    Some(c) => {
                        if c >= hi {
                            return None;
                        }
                        if same_text(n.as_str(), name) {
                            acc.push((k + 1, c));
                            assert(spans_view(acc@) =~= before + seq![(k + 1, c as int)]);
                            proof {
                                match find_children(tv, c + 1, hi as int, name@) {
                                    Some(rest) => {
                                        assert(before + (seq![(k + 1, c as int)] + rest) =~= (
                                        before + seq![(k + 1, c as int)]) + rest);
                                    },
                                    None => {},
                                }
                            }
                        }
                        k = c + 1;
                    },
                    None => {
                        return None;
                    },
                }
            },
            Token::Close(_) => {
                return None;
            },
            Token::Text(_) => {
                k += 1;
            },
        }
    }
    assert(spans_view(acc@) + Seq::<(int, int)>::empty() =~= spans_view(acc@));
    Some(acc)
}

/// The character data of the content span `[lo, hi)`.
pub fn text_in(t: &Vec<Token>, lo: usize, hi: usize) -> (r: Option<String>)
    requires
        lo <= hi <= t@.len(),
    ensures
        match r {
            Some(s) => leaf_text(tokens_view(t@), lo as int, hi as int) == Some(s@),
            None => leaf_text(tokens_view(t@), lo as int, hi as int) is None,
        },
{
    if lo == hi {
        return Some(String::new());
    }
    if hi == lo + 1 {
        match &t[lo] {
            Token::Text(x) => {
                let trimmed_text = trim_text(x.as_str());
                return Some(unescape_text(trimmed_text.as_str()));
            },
            _ => {
                return None;
            },
        }
    }
    None
}

/// The content span of a document's root element, when it is named `name` and
/// spans the whole token sequence.
pub fn root(t: &Vec<Token>, name: &str) -> (r: Option<(usize, usize)>)
    ensures
        match r {
            Some((a, b)) => root_span(tokens_view(t@), name@) == Some((a as int, b as int)) && a
                <= b < t@.len(),
            None => root_span(tokens_view(t@), name@) is None,
        },
{
    if t.len() < 2 {
        return None;
    }
    let ok = match &t[0] {
        Token::Open(n) => same_text(n.as_str(), name),
        _ => false,
    };
    if !ok {
        return None;
    }
    match end_of_element(t, 0) {
        Some(c) => {
            if c == t.len() - 1 {
                Some((1, c))
            } else {
                None
            }
        },
        None => None,
    }
}

} // verus!
