use vstd::prelude::*;

verus! {

/// The characters that a lossy UTF-8 decoding gives for a byte sequence.
pub uninterp spec fn lossy_text(b: Seq<u8>) -> Seq<char>;

/// Relies on `String::from_utf8_lossy`: the result depends on the bytes alone,
/// and no bytes give no characters.
#[verifier::external_body]
pub fn decode_lossy(b: &[u8]) -> (r: String)
    ensures
        r@ == lossy_text(b@),
        b@.len() == 0 ==> r@.len() == 0,
{
    String::from_utf8_lossy(b).into_owned()
}

/// Compares a string with a word, character by character.
pub fn same_text(s: &str, w: &str) -> (r: bool)
    ensures
        r == (s@ == w@),
{
    let n = s.unicode_len();
    if n != w.unicode_len() {
        return false;
    }
    let mut i: usize = 0;
    while i < n
        invariant
            n == s@.len(),
            n == w@.len(),
            i <= n,
            forall|k: int| 0 <= k < i ==> s@[k] == w@[k],
        decreases n - i,
    {
        if s.get_char(i) != w.get_char(i) {
            return false;
        }
        i += 1;
    }
    assert(s@ =~= w@);
    true
}

pub open spec fn is_blank(c: char) -> bool {
    c == ' ' || c == '\t' || c == '\n' || c == '\r'
}

/// The first index at or after `i` whose character is not blank, or the length.
pub open spec fn skip_blank(x: Seq<char>, i: int) -> int
    decreases x.len() - i,
{
    if i < 0 || i >= x.len() {
        x.len() as int
    } else if !is_blank(x[i]) {
        i
    } else {
        skip_blank(x, i + 1)
    }
}

/// The smallest `j' <= j` from which on, up to `j`, every character is blank.
pub open spec fn back_blank(x: Seq<char>, j: int) -> int
    decreases j,
{
    if j <= 0 || j > x.len() {
        0
    } else if !is_blank(x[j - 1]) {
        j
    } else {
        back_blank(x, j - 1)
    }
}

/// A text without its leading and trailing blanks.
pub open spec fn trimmed(x: Seq<char>) -> Seq<char> {
    let a = skip_blank(x, 0);
    if a >= x.len() {
        Seq::empty()
    } else {
        x.subrange(a, back_blank(x, x.len() as int))
    }
}

proof fn lemma_back_blank(x: Seq<char>, j: int, a: int)
    requires
        0 <= a < j <= x.len(),
        !is_blank(x[a]),
    ensures
        a < back_blank(x, j) <= j,
    decreases j,
{
    if is_blank(x[j - 1]) {
        lemma_back_blank(x, j - 1, a);
    }
}

fn blank_char(c: char) -> (r: bool)
    ensures
        r == is_blank(c),
{
    c == ' ' || c == '\t' || c == '\n' || c == '\r'
}

/// Drops the leading and trailing blanks of a text.
pub fn trim_text(s: &str) -> (r: String)
    ensures
        r@ == trimmed(s@),
{
    let n = s.unicode_len();
    let mut a: usize = 0;
    while a < n && blank_char(s.get_char(a))
        invariant
            n == s@.len(),
            a <= n,
            skip_blank(s@, 0) == skip_blank(s@, a as int),
        decreases n - a,
    {
        a += 1;
    }
    if a >= n {
        return String::new();
    }
    let mut b: usize = n;
    while b > 0 && blank_char(s.get_char(b - 1))
        invariant
            n == s@.len(),
            b <= n,
            back_blank(s@, n as int) == back_blank(s@, b as int),
        decreases b,
    {
        b -= 1;
    }
    proof {
        lemma_back_blank(s@, n as int, a as int);
    }
    s.substring_char(a, b).to_owned()
}

/// The character that a predefined XML entity starting at `i` stands for, and
/// the entity's length.
pub open spec fn entity_at(s: Seq<char>, i: int) -> Option<(char, int)> {
    if 0 <= i && i + 5 <= s.len() && s[i] == '&' && s[i + 1] == 'a' && s[i + 2] == 'm' && s[i
        + 3] == 'p' && s[i + 4] == ';' {
        Some(('&', 5))
    } else if 0 <= i && i + 4 <= s.len() && s[i] == '&' && s[i + 1] == 'l' && s[i + 2] == 't'
        && s[i + 3] == ';' {
        Some(('<', 4))
    } else if 0 <= i && i + 4 <= s.len() && s[i] == '&' && s[i + 1] == 'g' && s[i + 2] == 't'
        && s[i + 3] == ';' {
        Some(('>', 4))
    } else if 0 <= i && i + 6 <= s.len() && s[i] == '&' && s[i + 1] == 'q' && s[i + 2] == 'u'
        && s[i + 3] == 'o' && s[i + 4] == 't' && s[i + 5] == ';' {
        Some(('"', 6))
    } else if 0 <= i && i + 6 <= s.len() && s[i] == '&' && s[i + 1] == 'a' && s[i + 2] == 'p'
        && s[i + 3] == 'o' && s[i + 4] == 's' && s[i + 5] == ';' {
        Some(('\'', 6))
    } else {
        None
    }
}

/// The text from index `i` on with each predefined entity replaced by its
/// character.
pub open spec fn unescaped_from(s: Seq<char>, i: int) -> Seq<char>
    decreases s.len() - i,
{
    if i < 0 || i >= s.len() {
        Seq::empty()
    } else {
        match entity_at(s, i) {
            Some((c, n)) => if n > 0 {
                seq![c] + unescaped_from(s, i + n)
            } else {
                Seq::empty()
            },
            None => seq![s[i]] + unescaped_from(s, i + 1),
        }
    }
}

pub open spec fn unescaped(s: Seq<char>) -> Seq<char> {
    unescaped_from(s, 0)
}

fn entity_at_exec(s: &str, n: usize, i: usize) -> (r: Option<(usize, usize)>)
    requires
        n == s@.len(),
        i < n,
    ensures
        match r {
            Some((k, len)) => k < 5 && entity_at(s@, i as int) == Some(
                (
                    if k == 0 {
                        '&'
                    } else if k == 1 {
                        '<'
                    } else if k == 2 {
                        '>'
                    } else if k == 3 {
                        '"'
                    } else {
                        '\''
                    },
                    len as int,
                ),
            ),
            None => entity_at(s@, i as int) is None,
        },
{
    if s.get_char(i) != '&' {
        return None;
    }
    if n - i >= 5 && s.get_char(i + 1) == 'a' && s.get_char(i + 2) == 'm' && s.get_char(i + 3)
        == 'p' && s.get_char(i + 4) == ';' {
        return Some((0, 5));
    }
    if n - i >= 4 && s.get_char(i + 1) == 'l' && s.get_char(i + 2) == 't' && s.get_char(i + 3)
        == ';' {
        return Some((1, 4));
    }
    if n - i >= 4 && s.get_char(i + 1) == 'g' && s.get_char(i + 2) == 't' && s.get_char(i + 3)
        == ';' {
        return Some((2, 4));
    }
    if n - i >= 6 && s.get_char(i + 1) == 'q' && s.get_char(i + 2) == 'u' && s.get_char(i + 3)
        == 'o' && s.get_char(i + 4) == 't' && s.get_char(i + 5) == ';' {
        return Some((3, 6));
    }
    if n - i >= 6 && s.get_char(i + 1) == 'a' && s.get_char(i + 2) == 'p' && s.get_char(i + 3)
        == 'o' && s.get_char(i + 4) == 's' && s.get_char(i + 5) == ';' {
        return Some((4, 6));
    }
    None
}

/// Replaces the predefined entities `&amp;`, `&lt;`, `&gt;`, `&quot;` and
/// `&apos;` of a text by their characters.
pub fn unescape_text(s: &str) -> (r: String)
    ensures
        r@ == unescaped(s@),
{
    proof {
        reveal_strlit("&");
        reveal_strlit("<");
        reveal_strlit(">");
        reveal_strlit("\"");
        reveal_strlit("'");
    }
    let n = s.unicode_len();
    let mut out = String::new();
    let mut i: usize = 0;
    while i < n
        invariant
            n == s@.len(),
            i <= n,
            unescaped(s@) == out@ + unescaped_from(s@, i as int),
            "&"@ == seq!['&'],
            "<"@ == seq!['<'],
            ">"@ == seq!['>'],
            "\""@ == seq!['"'],
            "'"@ == seq!['\''],
        decreases n - i,
    {
        let ghost before = out@;
        match entity_at_exec(s, n, i) {
            Some((k, len)) => {
                let piece = if k == 0 {
                    "&"
                } else if k == 1 {
                    "<"
                } else if k == 2 {
                    ">"
                } else if k == 3 {
                    "\""
                } else {
                    "'"
                };
                out.append(piece);
                assert(before + (piece@ + unescaped_from(s@, i + len)) =~= (before + piece@)
                    + unescaped_from(s@, i + len));
                i = i + len;
            },
            None => {
                let piece = s.substring_char(i, i + 1);
                out.append(piece);
                assert(piece@ =~= seq![s@[i as int]]);
                assert(before + (piece@ + unescaped_from(s@, i + 1)) =~= (before + piece@)
                    + unescaped_from(s@, i + 1));
                i = i + 1;
            },
        }
    }
    assert(out@ + Seq::<char>::empty() =~= out@);
    out
}

} // verus!
