//! The translation part of a computed CSS `transform` value.
//!
//! Browsers report an element's transform as `none`, `matrix(a, b, c, d,
//! tx, ty)`, `matrix3d(..16 values..)` or, for inline styles, one of the
//! `translate` functions.  This module reads which numeric tokens carry
//! the x and y offsets; the application turns the tokens into numbers.

use vstd::prelude::*;
use crate::text::{contains_str, first_index_of, has_prefix, lemma_first_index_of, same_text, seq_contains_seq, starts_with, string_views};

verus! {

/// `char::is_whitespace`: the characters with the Unicode `White_Space`
/// property.
pub open spec fn is_white(c: char) -> bool {
    let u = c as u32;
    ||| 9 <= u <= 13
    ||| u == 32
    ||| u == 0x85
    ||| u == 0xA0
    ||| u == 0x1680
    ||| 0x2000 <= u <= 0x200A
    ||| u == 0x2028
    ||| u == 0x2029
    ||| u == 0x202F
    ||| u == 0x205F
    ||| u == 0x3000
}

fn white(c: char) -> (b: bool)
    ensures
        b == is_white(c),
{
    let u = c as u32;
    (9 <= u && u <= 13) || u == 32 || u == 0x85 || u == 0xA0 || u == 0x1680 || (0x2000 <= u && u <= 0x200A)
        || u == 0x2028 || u == 0x2029 || u == 0x202F || u == 0x205F || u == 0x3000
}

/// `s` without its leading white space.
pub open spec fn trim_start(s: Seq<char>) -> Seq<char>
    decreases s.len(),
{
    if s.len() > 0 && is_white(s[0]) {
        trim_start(s.drop_first())
    } else {
        s
    }
}

/// `s` without its trailing white space.
pub open spec fn trim_end(s: Seq<char>) -> Seq<char>
    decreases s.len(),
{
    if s.len() > 0 && is_white(s.last()) {
        trim_end(s.drop_last())
    } else {
        s
    }
}

/// `str::trim`.
pub open spec fn trim(s: Seq<char>) -> Seq<char> {
    trim_end(trim_start(s))
}

/// `s` with every trailing `px` removed (`trim_end_matches("px")`).
pub open spec fn strip_px(s: Seq<char>) -> Seq<char>
    decreases s.len(),
{
    if s.len() >= 2 && s[s.len() - 2] == 'p' && s.last() == 'x' {
        strip_px(s.subrange(0, s.len() - 2))
    } else {
        s
    }
}

/// The numeric text of one argument: trimmed, its `px` unit removed.
pub open spec fn px_token(s: Seq<char>) -> Seq<char> {
    strip_px(trim(s))
}

/// The pieces of `s` between commas (`s.split(',')`): one more piece
/// than there are commas.
pub open spec fn split_commas(s: Seq<char>) -> Seq<Seq<char>>
    decreases s.len(),
{
    match first_index_of(s, ',') {
        None => seq![s],
        Some(i) => {
            proof {
                lemma_first_index_of(s, ',');
            }
            seq![s.subrange(0, i)] + split_commas(s.subrange(i + 1, s.len() as int))
        },
    }
}

/// The arguments of the call `name(...)` that `s` is, without the closing
/// parenthesis (`name` includes the opening one).
pub open spec fn call_args(s: Seq<char>, name: Seq<char>) -> Option<Seq<char>> {
    if has_prefix(s, name) && s.len() > name.len() && s.last() == ')' {
        Some(s.subrange(name.len() as int, s.len() - 1))
    } else {
        None
    }
}

/// Which tokens of a transform carry its translation.
#[derive(Debug, Clone, PartialEq, Eq)]
pub enum TranslateArgs {
    /// Both offsets are required numbers.
    Both(String, String),
    /// `translate(x[, y])`: the x offset is required; the y offset is zero
    /// when absent or not a number.
    XThenOptionalY(String, Option<String>),
    /// `translateX(x)`: the y offset is zero.
    OnlyX(String),
    /// `translateY(y)`: the x offset is zero.
    OnlyY(String),
    /// A `scale(..)` or `rotate(..)` form without a translate term: both
    /// offsets are zero.
    Zero,
}

pub enum TranslateArgsView {
    Both(Seq<char>, Seq<char>),
    XThenOptionalY(Seq<char>, Option<Seq<char>>),
    OnlyX(Seq<char>),
    OnlyY(Seq<char>),
    Zero,
}

impl View for TranslateArgs {
    type V = TranslateArgsView;

    open spec fn view(&self) -> TranslateArgsView {
        match self {
            TranslateArgs::Both(x, y) => TranslateArgsView::Both(x@, y@),
            TranslateArgs::XThenOptionalY(x, y) => TranslateArgsView::XThenOptionalY(
                x@,
                match y {
                    Some(t) => Some(t@),
                    None => None,
                },
            ),
            TranslateArgs::OnlyX(x) => TranslateArgsView::OnlyX(x@),
            TranslateArgs::OnlyY(y) => TranslateArgsView::OnlyY(y@),
            TranslateArgs::Zero => TranslateArgsView::Zero,
        }
    }
}

/// A scaling or rotation alone: a call of `scale..` or `rotate..` with no
/// translate term anywhere in it.
pub open spec fn is_untranslated_form(t: Seq<char>) -> bool {
    &&& has_prefix(t, "scale"@) || has_prefix(t, "rotate"@)
    &&& t.len() > 0 && t.last() == ')'
    &&& !seq_contains_seq(t, "translate"@)
}

/// The translation tokens of the transform text `s`; `None` when it has
/// no translation that can be read (`none`, empty, or another form).  A
/// scaling or rotation alone has a zero translation.
pub open spec fn translate_args(s: Seq<char>) -> Option<TranslateArgsView> {
    let t = trim(s);
    if t.len() == 0 || t == "none"@ {
        None
    } else if call_args(t, "matrix("@) is Some && split_commas(call_args(t, "matrix("@)->0).len() == 6 {
        let p = split_commas(call_args(t, "matrix("@)->0);
        Some(TranslateArgsView::Both(px_token(p[4]), px_token(p[5])))
    } else if call_args(t, "matrix3d("@) is Some && split_commas(call_args(t, "matrix3d("@)->0).len() == 16 {
        let p = split_commas(call_args(t, "matrix3d("@)->0);
        Some(TranslateArgsView::Both(px_token(p[12]), px_token(p[13])))
    } else if call_args(t, "translate("@) is Some {
        let p = split_commas(call_args(t, "translate("@)->0);
        Some(
            TranslateArgsView::XThenOptionalY(
                px_token(p[0]),
                if p.len() > 1 {
                    Some(px_token(p[1]))
                } else {
                    None
                },
            ),
        )
    } else if call_args(t, "translateX("@) is Some {
        Some(TranslateArgsView::OnlyX(px_token(call_args(t, "translateX("@)->0)))
    } else if call_args(t, "translateY("@) is Some {
        Some(TranslateArgsView::OnlyY(px_token(call_args(t, "translateY("@)->0)))
    } else if call_args(t, "translate3d("@) is Some && split_commas(call_args(t, "translate3d("@)->0).len() >= 2 {
        let p = split_commas(call_args(t, "translate3d("@)->0);
        Some(TranslateArgsView::Both(px_token(p[0]), px_token(p[1])))
    } else if is_untranslated_form(t) {
        Some(TranslateArgsView::Zero)
    } else {
        None
    }
}

/// `str::trim`.
fn trimmed(s: &str) -> (r: &str)
    ensures
        r@ == trim(s@),
{
    let n = s.unicode_len();
    let mut a: usize = 0;
    assert(s@.subrange(0, n as int) =~= s@);
    while a < n && white(s.get_char(a))
        invariant
            a <= n,
            n == s@.len(),
            trim_start(s@) == trim_start(s@.subrange(a as int, n as int)),
        decreases n - a,
    {
        assert(s@.subrange(a as int, n as int).drop_first() =~= s@.subrange(a + 1, n as int));
        a = a + 1;
    }
    assert(trim_start(s@) == s@.subrange(a as int, n as int));
    let mut b: usize = n;
    while b > a && white(s.get_char(b - 1))
        invariant
            a <= b <= n,
            n == s@.len(),
            trim(s@) == trim_end(s@.subrange(a as int, b as int)),
        decreases b - a,
    {
        assert(s@.subrange(a as int, b as int).drop_last() =~= s@.subrange(a as int, b - 1));
        b = b - 1;
    }
    s.substring_char(a, b)
}

/// `trim_end_matches("px")`.
fn without_px(s: &str) -> (r: &str)
    ensures
        r@ == strip_px(s@),
{
    let mut b: usize = s.unicode_len();
    assert(s@.subrange(0, b as int) =~= s@);
    while b >= 2 && s.get_char(b - 2) == 'p' && s.get_char(b - 1) == 'x'
        invariant
            b <= s@.len(),
            strip_px(s@) == strip_px(s@.subrange(0, b as int)),
        decreases b,
    {
        assert(s@.subrange(0, b as int).subrange(0, b - 2) =~= s@.subrange(0, b - 2));
        b = b - 2;
    }
    s.substring_char(0, b)
}

fn px_text(s: &str) -> (r: String)
    ensures
        r@ == px_token(s@),
{
    String::from_str(without_px(trimmed(s)))
}

proof fn lemma_split_at_comma(t: Seq<char>, k: int)
    requires
        0 <= k < t.len(),
        t[k] == ',',
        forall|j: int| 0 <= j < k ==> t[j] != ',',
    ensures
        split_commas(t) == seq![t.subrange(0, k)] + split_commas(t.subrange(k + 1, t.len() as int)),
{
    lemma_first_index_of(t, ',');
}

proof fn lemma_split_without_comma(t: Seq<char>)
    requires
        forall|j: int| 0 <= j < t.len() ==> t[j] != ',',
    ensures
        split_commas(t) == seq![t],
{
    lemma_first_index_of(t, ',');
}

/// `s.split(',')`, each piece as an owned string.
fn comma_pieces(s: &str) -> (parts: Vec<String>)
    ensures
        string_views(parts@) == split_commas(s@),
{
    let n = s.unicode_len();
    let mut parts: Vec<String> = Vec::new();
    let mut start: usize = 0;
    let mut i: usize = 0;
    assert(s@.subrange(0, n as int) =~= s@);
    assert(string_views(parts@) + split_commas(s@) =~= split_commas(s@));
    while i < n
        invariant
            start <= i <= n,
            n == s@.len(),
            split_commas(s@) == string_views(parts@) + split_commas(s@.subrange(start as int, n as int)),
            forall|j: int| start <= j < i ==> s@[j] != ',',
        decreases n - i,
    {
        if s.get_char(i) == ',' {
            let ghost t = s@.subrange(start as int, n as int);
            let ghost k = i - start;
            proof {
                assert forall|j: int| 0 <= j < k implies t[j] != ',' by {
                    assert(t[j] == s@[start + j]);
                }
                lemma_split_at_comma(t, k);
                assert(t.subrange(0, k) =~= s@.subrange(start as int, i as int));
                assert(t.subrange(k + 1, t.len() as int) =~= s@.subrange(i + 1, n as int));
            }
            let piece = String::from_str(s.substring_char(start, i));
            let ghost before = parts@;
            parts.push(piece);
            proof {
                assert(string_views(parts@) =~= string_views(before).push(piece@));
                assert(string_views(before) + split_commas(t) =~= string_views(parts@) + split_commas(
                    s@.subrange(i + 1, n as int),
                ));
            }
            start = i + 1;
        }
        i = i + 1;
    }
    let ghost t = s@.subrange(start as int, n as int);
    proof {
        assert forall|j: int| 0 <= j < t.len() implies t[j] != ',' by {
            assert(t[j] == s@[start + j]);
        }
        lemma_split_without_comma(t);
    }
    let piece = String::from_str(s.substring_char(start, n));
    let ghost before = parts@;
    parts.push(piece);
    proof {
        assert(string_views(parts@) =~= string_views(before).push(piece@));
        assert(string_views(before) + seq![t] =~= string_views(parts@));
    }
    parts
}

/// The arguments of `s` when it is the call `name(...)`.
fn call_arguments<'a>(s: &'a str, name: &str) -> (r: Option<&'a str>)
    ensures
        match r {
            Some(a) => call_args(s@, name@) == Some(a@),
            None => call_args(s@, name@) is None,
        },
{
    let n = s.unicode_len();
    let m = name.unicode_len();
    if starts_with(s, name) && n > m && s.get_char(n - 1) == ')' {
        proof {
            assert(s@.last() == s@[n - 1]);
        }
        Some(s.substring_char(m, n - 1))
    } else {
        proof {
            if n > 0 {
                assert(s@.last() == s@[n - 1]);
            }
        }
        None
    }
}

/// The tokens that carry the translation of the transform text
/// `transform`, as `translate_args` reads them.
pub fn translation_tokens(transform: &str) -> (r: Option<TranslateArgs>)
    ensures
        match r {
            Some(a) => translate_args(transform@) == Some(a@),
            None => translate_args(transform@) is None,
        },
{
    proof {
        reveal_strlit("none");
        reveal_strlit("matrix(");
        reveal_strlit("matrix3d(");
        reveal_strlit("translate(");
        reveal_strlit("translateX(");
        reveal_strlit("translateY(");
        reveal_strlit("translate3d(");
        reveal_strlit("scale");
        reveal_strlit("rotate");
        reveal_strlit("translate");
    }
    let t = trimmed(transform);
    if t.unicode_len() == 0 || same_text(t, "none") {
        return None;
    }
    if let Some(a) = call_arguments(t, "matrix(") {
        let p = comma_pieces(a);
        if p.len() == 6 {
            return Some(TranslateArgs::Both(px_text(p[4].as_str()), px_text(p[5].as_str())));
        }
    }
    if let Some(a) = call_arguments(t, "matrix3d(") {
        let p = comma_pieces(a);
        if p.len() == 16 {
            return Some(TranslateArgs::Both(px_text(p[12].as_str()), px_text(p[13].as_str())));
        }
    }
    if let Some(a) = call_arguments(t, "translate(") {
        let p = comma_pieces(a);
        proof {
            assert(split_commas(a@).len() >= 1) by {
                match first_index_of(a@, ',') {
                    None => {},
                    Some(i) => {},
                }
            }
        }
        let x = px_text(p[0].as_str());
        let y = if p.len() > 1 {
            Some(px_text(p[1].as_str()))
        } else {
            None
        };
        return Some(TranslateArgs::XThenOptionalY(x, y));
    }
    if let Some(a) = call_arguments(t, "translateX(") {
        return Some(TranslateArgs::OnlyX(px_text(a)));
    }
    if let Some(a) = call_arguments(t, "translateY(") {
        return Some(TranslateArgs::OnlyY(px_text(a)));
    }
    if let Some(a) = call_arguments(t, "translate3d(") {
        let p = comma_pieces(a);
        if p.len() >= 2 {
            return Some(TranslateArgs::Both(px_text(p[0].as_str()), px_text(p[1].as_str())));
        }
    }
    let n = t.unicode_len();
    if (starts_with(t, "scale") || starts_with(t, "rotate")) && n > 0 && t.get_char(n - 1) == ')' && !contains_str(
        t,
        "translate",
    ) {
        proof {
            assert(t@.last() == t@[n - 1]);
        }
        return Some(TranslateArgs::Zero);
    }
    proof {
        if n > 0 {
            assert(t@.last() == t@[n - 1]);
        }
    }
    None
}

} // verus!
