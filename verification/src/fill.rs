//! How the background is filled: one color, or a gradient between two,
//! and its textual form `#RRGGBB`, `vertical <top> <bottom>` or
//! `horizontal <left> <right>`.
use vstd::prelude::*;

use crate::color::{rgb_parsed, rgb_text, rgb_text_roundtrip, ParseRgbError, Rgb};
use crate::text::{
    chars_eq_ignore_ascii_case, eq_ignore_ascii_case, hex2, is_whitespace, is_ws, push_str, str_chars,
    string_from_chars,
};

verus! {

#[derive(Debug, Clone, Copy, PartialEq, Eq, Structural)]
pub enum Fill {
    Solid(Rgb),
    VerticalGradient { top: Rgb, bottom: Rgb },
    HorizontalGradient { left: Rgb, right: Rgb },
}

/// The error of a text that names no fill; `cause` is the color error
/// where a color was malformed.
#[derive(Debug, Clone, Copy, PartialEq, Eq, Structural)]
pub struct ParseFillError {
    pub cause: Option<ParseRgbError>,
}

impl From<ParseRgbError> for ParseFillError {
    fn from(value: ParseRgbError) -> (e: ParseFillError) {
        ParseFillError { cause: Some(value) }
    }
}

impl vstd::std_specs::convert::FromSpecImpl<ParseRgbError> for ParseFillError {
    open spec fn obeys_from_spec() -> bool {
        true
    }

    open spec fn from_spec(v: ParseRgbError) -> ParseFillError {
        ParseFillError { cause: Some(v) }
    }
}

/// The first index from `i` on that holds no white space.
pub open spec fn skip_ws(s: Seq<char>, i: int) -> int
    decreases s.len() - i,
{
    if 0 <= i < s.len() && is_ws(s[i]) {
        skip_ws(s, i + 1)
    } else {
        i
    }
}

/// The first index from `i` on that holds white space, or the end.
pub open spec fn word_end(s: Seq<char>, i: int) -> int
    decreases s.len() - i,
{
    if 0 <= i < s.len() && !is_ws(s[i]) {
        word_end(s, i + 1)
    } else {
        i
    }
}

pub proof fn lemma_skip_ws(s: Seq<char>, i: int)
    requires
        0 <= i <= s.len(),
    ensures
        i <= skip_ws(s, i) <= s.len(),
        skip_ws(s, i) < s.len() ==> !is_ws(s[skip_ws(s, i)]),
    decreases s.len() - i,
{
    if i < s.len() && is_ws(s[i]) {
        lemma_skip_ws(s, i + 1);
    }
}

pub proof fn lemma_word_end(s: Seq<char>, i: int)
    requires
        0 <= i <= s.len(),
    ensures
        i <= word_end(s, i) <= s.len(),
        i < s.len() && !is_ws(s[i]) ==> i < word_end(s, i),
        forall|j: int| i <= j < word_end(s, i) ==> !is_ws(#[trigger] s[j]),
        word_end(s, i) < s.len() ==> is_ws(s[word_end(s, i)]),
    decreases s.len() - i,
{
    if i < s.len() && !is_ws(s[i]) {
        lemma_word_end(s, i + 1);
    }
}

/// The words of `s` from index `i` on: the maximal runs of characters
/// other than white space.
pub open spec fn words_from(s: Seq<char>, i: int) -> Seq<Seq<char>>
    decreases s.len() - i,
{
    if i < 0 || i > s.len() {
        Seq::empty()
    } else {
        let st = skip_ws(s, i);
        proof {
            lemma_skip_ws(s, i);
            if st < s.len() {
                lemma_word_end(s, st);
            }
        }
        if st >= s.len() {
            Seq::empty()
        } else {
            seq![s.subrange(st, word_end(s, st))] + words_from(s, word_end(s, st))
        }
    }
}

/// The words of `s`, split at white space.
pub open spec fn words(s: Seq<char>) -> Seq<Seq<char>> {
    words_from(s, 0)
}

/// The fill of two colors given as words, or the error of the first one
/// that is malformed.
pub open spec fn two_colors(a: Seq<char>, b: Seq<char>, vertical: bool) -> Result<
    Fill,
    ParseFillError,
> {
    match (rgb_parsed(a), rgb_parsed(b)) {
        (Some(x), Some(y)) => Ok(
            if vertical {
                Fill::VerticalGradient { top: x, bottom: y }
            } else {
                Fill::HorizontalGradient { left: x, right: y }
            },
        ),
        _ => Err(ParseFillError { cause: Some(ParseRgbError) }),
    }
}

/// The fill that a text names: one color as `#RRGGBB`, or `vertical` or
/// `horizontal` (in either case) followed by two colors, the words
/// separated by white space. Another number of words is an error without
/// cause; a malformed color is an error caused by the color.
pub open spec fn fill_parsed(s: Seq<char>) -> Result<Fill, ParseFillError> {
    let w = words(s);
    if w.len() == 0 {
        Err(ParseFillError { cause: None })
    } else if eq_ignore_ascii_case(w[0], "vertical"@) {
        if w.len() != 3 {
            Err(ParseFillError { cause: None })
        } else {
            two_colors(w[1], w[2], true)
        }
    } else if eq_ignore_ascii_case(w[0], "horizontal"@) {
        if w.len() != 3 {
            Err(ParseFillError { cause: None })
        } else {
            two_colors(w[1], w[2], false)
        }
    } else if w.len() != 1 {
        Err(ParseFillError { cause: None })
    } else {
        match rgb_parsed(w[0]) {
            Some(c) => Ok(Fill::Solid(c)),
            None => Err(ParseFillError { cause: Some(ParseRgbError) }),
        }
    }
}

/// `#RRGGBB`, `vertical <top> <bottom>` or `horizontal <left> <right>`.
pub open spec fn fill_text(f: Fill) -> Seq<char> {
    match f {
        Fill::Solid(c) => rgb_text(c),
        Fill::VerticalGradient { top, bottom } => "vertical "@ + rgb_text(top) + " "@ + rgb_text(
            bottom,
        ),
        Fill::HorizontalGradient { left, right } => "horizontal "@ + rgb_text(left) + " "@
            + rgb_text(right),
    }
}

fn skip_ws_exec(v: &Vec<char>, i: usize) -> (r: usize)
    requires
        i <= v@.len(),
    ensures
        r == skip_ws(v@, i as int),
{
    let mut j = i;
    while j < v.len() && is_whitespace(v[j])
        invariant
            i <= j <= v@.len(),
            skip_ws(v@, j as int) == skip_ws(v@, i as int),
        decreases v@.len() - j,
    {
        j = j + 1;
    }
    j
}

fn word_end_exec(v: &Vec<char>, i: usize) -> (r: usize)
    requires
        i <= v@.len(),
    ensures
        r == word_end(v@, i as int),
{
    let mut j = i;
    while j < v.len() && !is_whitespace(v[j])
        invariant
            i <= j <= v@.len(),
            word_end(v@, j as int) == word_end(v@, i as int),
        decreases v@.len() - j,
    {
        j = j + 1;
    }
    j
}

/// The next word from `i` on, as `(start, end)`; the start is the length
/// where there is none.
fn next_word(v: &Vec<char>, i: usize) -> (r: (usize, usize))
    requires
        i <= v@.len(),
    ensures
        r.0 == skip_ws(v@, i as int),
        r.0 < v@.len() ==> r.1 == word_end(v@, r.0 as int),
        r.0 <= r.1 <= v@.len(),
        words_from(v@, i as int) == if r.0 >= v@.len() {
            Seq::empty()
        } else {
            seq![v@.subrange(r.0 as int, r.1 as int)] + words_from(v@, r.1 as int)
        },
{
    let st = skip_ws_exec(v, i);
    proof {
        lemma_skip_ws(v@, i as int);
    }
    if st >= v.len() {
        return (st, st);
    }
    let e = word_end_exec(v, st);
    proof {
        lemma_word_end(v@, st as int);
    }
    (st, e)
}

/// The characters `v[start..end]`.
fn sub_chars(v: &Vec<char>, start: usize, end: usize) -> (r: Vec<char>)
    requires
        start <= end <= v@.len(),
    ensures
        r@ == v@.subrange(start as int, end as int),
{
    let mut r: Vec<char> = Vec::new();
    let mut i = start;
    while i < end
        invariant
            start <= i <= end <= v@.len(),
            r@ == v@.subrange(start as int, i as int),
        decreases end - i,
    {
        r.push(v[i]);
        assert(r@ =~= v@.subrange(start as int, i + 1));
        i = i + 1;
    }
    r
}

/// The two colors of a gradient given as words.
fn parse_two(a: &Vec<char>, b: &Vec<char>, vertical: bool) -> (r: Result<Fill, ParseFillError>)
    ensures
        r == two_colors(a@, b@, vertical),
{
    let x = match Rgb::parse_chars(a) {
        Ok(x) => x,
        Err(e) => return Err(ParseFillError::from(e)),
    };
    let y = match Rgb::parse_chars(b) {
        Ok(y) => y,
        Err(e) => return Err(ParseFillError::from(e)),
    };
    if vertical {
        Ok(Fill::VerticalGradient { top: x, bottom: y })
    } else {
        Ok(Fill::HorizontalGradient { left: x, right: y })
    }
}

impl Fill {
    /// The first color: the solid color, the top or the left one.
    pub fn start(&self) -> (c: Rgb)
        ensures
            c == match *self {
                Fill::Solid(color) => color,
                Fill::VerticalGradient { top, .. } => top,
                Fill::HorizontalGradient { left, .. } => left,
            },
    {
        match self {
            Fill::Solid(color) => *color,
            Fill::VerticalGradient { top, .. } => *top,
            Fill::HorizontalGradient { left, .. } => *left,
        }
    }

    /// The last color: the solid color, the bottom or the right one.
    pub fn end(&self) -> (c: Rgb)
        ensures
            c == match *self {
                Fill::Solid(color) => color,
                Fill::VerticalGradient { bottom, .. } => bottom,
                Fill::HorizontalGradient { right, .. } => right,
            },
    {
        match self {
            Fill::Solid(color) => *color,
            Fill::VerticalGradient { bottom, .. } => *bottom,
            Fill::HorizontalGradient { right, .. } => *right,
        }
    }

    /// `#RRGGBB`, `vertical <top> <bottom>` or `horizontal <left> <right>`.
    pub fn to_string(&self) -> (s: String)
        ensures
            s@ == fill_text(*self),
    {
        let mut v: Vec<char> = Vec::new();
        match self {
            Fill::Solid(c) => c.fmt_into(&mut v),
            Fill::VerticalGradient { top, bottom } => {
                push_str(&mut v, "vertical ");
                top.fmt_into(&mut v);
                push_str(&mut v, " ");
                bottom.fmt_into(&mut v);
            },
            Fill::HorizontalGradient { left, right } => {
                push_str(&mut v, "horizontal ");
                left.fmt_into(&mut v);
                push_str(&mut v, " ");
                right.fmt_into(&mut v);
            },
        }
        assert(v@ =~= fill_text(*self));
        string_from_chars(&v)
    }

    /// The fill that a text names.
    pub fn parse(s: &str) -> (r: Result<Fill, ParseFillError>)
        ensures
            r == fill_parsed(s@),
    {
        let v = str_chars(s);
        let n = v.len();
        let (s1, e1) = next_word(&v, 0);
        if s1 >= n {
            return Err(ParseFillError { cause: None });
        }
        let w1 = sub_chars(&v, s1, e1);
        let (s2, e2) = next_word(&v, e1);
        let vertical = chars_eq_ignore_ascii_case(&w1, "vertical");
        let horizontal = chars_eq_ignore_ascii_case(&w1, "horizontal");
        if vertical || horizontal {
            if s2 >= n {
                return Err(ParseFillError { cause: None });
            }
            let (s3, e3) = next_word(&v, e2);
            if s3 >= n {
                return Err(ParseFillError { cause: None });
            }
            let (s4, _e4) = next_word(&v, e3);
            if s4 < n {
                return Err(ParseFillError { cause: None });
            }
            let w2 = sub_chars(&v, s2, e2);
            let w3 = sub_chars(&v, s3, e3);
            parse_two(&w2, &w3, vertical)
        } else {
            if s2 < n {
                return Err(ParseFillError { cause: None });
            }
            match Rgb::parse_chars(&w1) {
                Ok(c) => Ok(Fill::Solid(c)),
                Err(e) => Err(ParseFillError::from(e)),
            }
        }
    }
}

impl std::str::FromStr for Fill {
    type Err = ParseFillError;

    /// The fill that a text names.
    fn from_str(s: &str) -> (r: Result<Fill, ParseFillError>)
        ensures
            r == fill_parsed(s@),
    {
        Fill::parse(s)
    }
}

proof fn lemma_word_at(s: Seq<char>, i: int, n: int)
    requires
        0 <= i,
        0 <= n,
        i + n <= s.len(),
        forall|j: int| i <= j < i + n ==> !is_ws(#[trigger] s[j]),
        i + n == s.len() || is_ws(s[i + n]),
    ensures
        word_end(s, i) == i + n,
    decreases n,
{
    if n > 0 {
        lemma_word_at(s, i + 1, n - 1);
    }
}

/// The words from `i` on where a word of `n` characters starts at `i`
/// (after at most one white space character at `i - 1`, which is skipped
/// when `skip`).
proof fn lemma_words_step(s: Seq<char>, i: int, n: int)
    requires
        0 <= i,
        0 < n,
        i + n <= s.len(),
        forall|j: int| i <= j < i + n ==> !is_ws(#[trigger] s[j]),
        i + n == s.len() || is_ws(s[i + n]),
    ensures
        words_from(s, i) == seq![s.subrange(i, i + n)] + words_from(s, i + n),
{
    lemma_word_at(s, i, n);
}

proof fn lemma_rgb_text_no_ws(c: Rgb)
    ensures
        rgb_text(c).len() == 7,
        forall|j: int| 0 <= j < 7 ==> !is_ws(#[trigger] rgb_text(c)[j]),
{
    assert forall|b: u8| #[trigger] hex2(b).len() == 2 && !is_ws(hex2(b)[0]) && !is_ws(hex2(b)[1]) by {}
}

proof fn lemma_words_of_text(s: Seq<char>, w1: Seq<char>, w2: Seq<char>, w3: Seq<char>)
    requires
        s == w1 + " "@ + w2 + " "@ + w3,
        w1.len() > 0,
        w2.len() > 0,
        w3.len() > 0,
        forall|j: int| 0 <= j < w1.len() ==> !is_ws(#[trigger] w1[j]),
        forall|j: int| 0 <= j < w2.len() ==> !is_ws(#[trigger] w2[j]),
        forall|j: int| 0 <= j < w3.len() ==> !is_ws(#[trigger] w3[j]),
    ensures
        words(s) == seq![w1, w2, w3],
{
    reveal_strlit(" ");
    let a = w1.len() as int;
    let b = w2.len() as int;
    let c = w3.len() as int;
    assert(s.len() == a + b + c + 2);
    assert forall|j: int| 0 <= j < a implies !is_ws(#[trigger] s[j]) by {
        assert(s[j] == w1[j]);
    }
    assert(s[a] == ' ');
    assert forall|j: int| a + 1 <= j < a + 1 + b implies !is_ws(#[trigger] s[j]) by {
        assert(s[j] == w2[j - a - 1]);
    }
    assert(s[a + 1 + b] == ' ');
    assert forall|j: int| a + b + 2 <= j < a + b + 2 + c implies !is_ws(#[trigger] s[j]) by {
        assert(s[j] == w3[j - a - b - 2]);
    }
    lemma_words_step(s, 0, a);
    lemma_words_step(s, a + 1, b);
    lemma_words_step(s, a + b + 2, c);
    assert(skip_ws(s, a) == a + 1);
    assert(skip_ws(s, a + 1 + b) == a + b + 2);
    assert(s.subrange(0, a) =~= w1);
    assert(s.subrange(a + 1, a + 1 + b) =~= w2);
    assert(s.subrange(a + b + 2, a + b + 2 + c) =~= w3);
    assert(words_from(s, a + b + 2 + c) =~= Seq::<Seq<char>>::empty());
    assert(words(s) =~= seq![w1, w2, w3]);
}

proof fn lemma_solid_roundtrip(c: Rgb)
    ensures
        fill_parsed(fill_text(Fill::Solid(c))) == Ok::<Fill, ParseFillError>(Fill::Solid(c)),
{
    reveal_strlit("vertical");
    reveal_strlit("horizontal");
    let s = rgb_text(c);
    lemma_rgb_text_no_ws(c);
    lemma_words_step(s, 0, 7);
    assert(s.subrange(0, 7) =~= s);
    assert(words_from(s, 7) =~= Seq::<Seq<char>>::empty());
    assert(words(s) =~= seq![s]);
    assert(!eq_ignore_ascii_case(s, "vertical"@));
    assert(!eq_ignore_ascii_case(s, "horizontal"@));
    rgb_text_roundtrip(c);
}

proof fn lemma_vertical_roundtrip(top: Rgb, bottom: Rgb)
    ensures
        fill_parsed(fill_text(Fill::VerticalGradient { top, bottom })) == Ok::<Fill, ParseFillError>(
            Fill::VerticalGradient { top, bottom },
        ),
{
    reveal_strlit("vertical ");
    reveal_strlit("vertical");
    reveal_strlit(" ");
    let f = Fill::VerticalGradient { top, bottom };
    lemma_rgb_text_no_ws(top);
    lemma_rgb_text_no_ws(bottom);
    assert("vertical "@ =~= "vertical"@ + " "@);
    assert(fill_text(f) =~= "vertical"@ + " "@ + rgb_text(top) + " "@ + rgb_text(bottom));
    lemma_words_of_text(fill_text(f), "vertical"@, rgb_text(top), rgb_text(bottom));
    assert(eq_ignore_ascii_case("vertical"@, "vertical"@));
    rgb_text_roundtrip(top);
    rgb_text_roundtrip(bottom);
}

proof fn lemma_horizontal_roundtrip(left: Rgb, right: Rgb)
    ensures
        fill_parsed(fill_text(Fill::HorizontalGradient { left, right })) == Ok::<
            Fill,
            ParseFillError,
        >(Fill::HorizontalGradient { left, right }),
{
    reveal_strlit("horizontal ");
    reveal_strlit("horizontal");
    reveal_strlit("vertical");
    reveal_strlit(" ");
    let f = Fill::HorizontalGradient { left, right };
    lemma_rgb_text_no_ws(left);
    lemma_rgb_text_no_ws(right);
    assert("horizontal "@ =~= "horizontal"@ + " "@);
    assert(fill_text(f) =~= "horizontal"@ + " "@ + rgb_text(left) + " "@ + rgb_text(right));
    lemma_words_of_text(fill_text(f), "horizontal"@, rgb_text(left), rgb_text(right));
    assert(!eq_ignore_ascii_case("horizontal"@, "vertical"@));
    assert(eq_ignore_ascii_case("horizontal"@, "horizontal"@));
    rgb_text_roundtrip(left);
    rgb_text_roundtrip(right);
}

/// The text of a fill names the fill.
pub proof fn fill_text_roundtrip(f: Fill)
    ensures
        fill_parsed(fill_text(f)) == Ok::<Fill, ParseFillError>(f),
{
    match f {
        Fill::Solid(c) => lemma_solid_roundtrip(c),
        Fill::VerticalGradient { top, bottom } => lemma_vertical_roundtrip(top, bottom),
        Fill::HorizontalGradient { left, right } => lemma_horizontal_roundtrip(left, right),
    }
}

} // verus!
