use vstd::prelude::*;

use crate::error::ConvertError;
use crate::paths::{file_stem_of, path_file_stem};

verus! {

/// The decimal digit for `d < 10`.
pub open spec fn digit_char(d: nat) -> char {
    if d == 0 {
        '0'
    } else if d == 1 {
        '1'
    } else if d == 2 {
        '2'
    } else if d == 3 {
        '3'
    } else if d == 4 {
        '4'
    } else if d == 5 {
        '5'
    } else if d == 6 {
        '6'
    } else if d == 7 {
        '7'
    } else if d == 8 {
        '8'
    } else {
        '9'
    }
}

/// `n` in decimal, without leading zeros.
pub open spec fn decimal(n: nat) -> Seq<char>
    decreases n,
{
    if n < 10 {
        seq![digit_char(n)]
    } else {
        decimal(n / 10).push(digit_char(n % 10))
    }
}

/// `n` in decimal, padded on the left with zeros to `width` characters.
pub open spec fn zero_padded(n: nat, width: nat) -> Seq<char> {
    let pad = if width > decimal(n).len() {
        width - decimal(n).len()
    } else {
        0
    };
    Seq::new(pad as nat, |i: int| '0') + decimal(n)
}

/// The template with `{}` replaced by `stem` and `{i}` by `page`, padded to
/// as many digits as `pages` has. Other text, other braces included, stays.
pub open spec fn expand(template: Seq<char>, stem: Seq<char>, page: nat, pages: nat) -> Seq<char>
    decreases template.len(),
{
    if template.len() == 0 {
        seq![]
    } else if template.len() >= 2 && template[0] == '{' && template[1] == '}' {
        stem + expand(template.skip(2), stem, page, pages)
    } else if template.len() >= 3 && template[0] == '{' && template[1] == 'i' && template[2] == '}' {
        zero_padded(page, decimal(pages).len()) + expand(template.skip(3), stem, page, pages)
    } else {
        seq![template[0]] + expand(template.skip(1), stem, page, pages)
    }
}

fn digit_str(d: usize) -> (r: &'static str)
    requires
        d < 10,
    ensures
        r@ == seq![digit_char(d as nat)],
{
    proof {
        reveal_strlit("0");
        reveal_strlit("1");
        reveal_strlit("2");
        reveal_strlit("3");
        reveal_strlit("4");
        reveal_strlit("5");
        reveal_strlit("6");
        reveal_strlit("7");
        reveal_strlit("8");
        reveal_strlit("9");
    }
    let r = match d {
        0 => "0",
        1 => "1",
        2 => "2",
        3 => "3",
        4 => "4",
        5 => "5",
        6 => "6",
        7 => "7",
        8 => "8",
        _ => "9",
    };
    assert(r@ =~= seq![digit_char(d as nat)]);
    r
}

/// `n` in decimal.
pub fn decimal_string(n: usize) -> (r: String)
    ensures
        r@ == decimal(n as nat),
    decreases n,
{
    if n < 10 {
        String::from_str(digit_str(n))
    } else {
        let mut s = decimal_string(n / 10);
        s.append(digit_str(n % 10));
        s
    }
}

/// `n` in decimal, padded on the left with zeros to `width` characters.
pub fn zero_padded_string(n: usize, width: usize) -> (r: String)
    ensures
        r@ == zero_padded(n as nat, width as nat),
{
    let digits = decimal_string(n);
    let len = digits.as_str().unicode_len();
    let mut out = String::new();
    let mut k: usize = len;
    while k < width
        invariant
            len == digits@.len(),
            len <= k,
            k <= width || len > width,
            len > width ==> k == len,
            out@ == Seq::new((k - len) as nat, |i: int| '0'),
        decreases width - k,
    {
        proof {
            reveal_strlit("0");
        }
        out.append("0");
        assert(out@ =~= Seq::new((k + 1 - len) as nat, |i: int| '0'));
        k = k + 1;
    }
    out.append(digits.as_str());
    assert(out@ =~= zero_padded(n as nat, width as nat));
    out
}

proof fn lemma_expand_step(template: Seq<char>, i: int, stem: Seq<char>, page: nat, pages: nat)
    requires
        0 <= i < template.len(),
    ensures
        expand(template.skip(i), stem, page, pages) == (if template.len() - i >= 2 && template[i]
            == '{' && template[i + 1] == '}' {
            stem + expand(template.skip(i + 2), stem, page, pages)
        } else if template.len() - i >= 3 && template[i] == '{' && template[i + 1] == 'i'
            && template[i + 2] == '}' {
            zero_padded(page, decimal(pages).len()) + expand(template.skip(i + 3), stem, page, pages)
        } else {
            seq![template[i]] + expand(template.skip(i + 1), stem, page, pages)
        }),
{
    let t = template.skip(i);
    assert(t.skip(1) =~= template.skip(i + 1));
    if t.len() >= 2 {
        assert(t.skip(2) =~= template.skip(i + 2));
    }
    if t.len() >= 3 {
        assert(t.skip(3) =~= template.skip(i + 3));
    }
}

/// Expands a path template: `{}` becomes `stem`, `{i}` becomes `page` in
/// decimal, zero-padded to the number of digits of `pages`.
pub fn expand_template(template: &str, stem: &str, page: usize, pages: usize) -> (r: String)
    ensures
        r@ == expand(template@, stem@, page as nat, pages as nat),
{
    let n = template.unicode_len();
    let places = decimal_string(pages).as_str().unicode_len();
    let number = zero_padded_string(page, places);
    let mut out = String::new();
    let mut i: usize = 0;
    assert(template@.skip(0) =~= template@);
    while i < n
        invariant
            n == template@.len(),
            i <= n,
            places == decimal(pages as nat).len(),
            number@ == zero_padded(page as nat, places as nat),
            out@ + expand(template@.skip(i as int), stem@, page as nat, pages as nat) == expand(
                template@,
                stem@,
                page as nat,
                pages as nat,
            ),
        decreases n - i,
    {
        proof {
            lemma_expand_step(template@, i as int, stem@, page as nat, pages as nat);
        }
        let ghost prev = out@;
        let c = template.get_char(i);
        if c == '{' && n - i > 1 && template.get_char(i + 1) == '}' {
            out.append(stem);
            assert(out@ + expand(template@.skip(i + 2), stem@, page as nat, pages as nat) =~= prev + (
            stem@ + expand(template@.skip(i + 2), stem@, page as nat, pages as nat)));
            i = i + 2;
        } else if c == '{' && n - i > 2 && template.get_char(i + 1) == 'i' && template.get_char(i + 2)
            == '}' {
            out.append(number.as_str());
            assert(out@ + expand(template@.skip(i + 3), stem@, page as nat, pages as nat) =~= prev + (
            number@ + expand(template@.skip(i + 3), stem@, page as nat, pages as nat)));
            i = i + 3;
        } else {
            let one = template.substring_char(i, i + 1);
            out.append(one);
            assert(one@ =~= seq![template@[i as int]]);
            assert(out@ + expand(template@.skip(i + 1), stem@, page as nat, pages as nat) =~= prev + (
            seq![template@[i as int]] + expand(template@.skip(i + 1), stem@, page as nat, pages as nat)));
            i = i + 1;
        }
    }
    assert(template@.skip(n as int) =~= Seq::<char>::empty());
    assert(out@ =~= out@ + Seq::<char>::empty());
    out
}

/// The output path for `page` of `pages`: the template expanded with the
/// file stem of `input_path`, which must have one.
pub fn create_path(path_template: &str, input_path: &str, page: usize, n_pages: usize) -> (r: Result<
    String,
    ConvertError,
>)
    ensures
        file_stem_of(input_path@) is None ==> r == Err::<String, ConvertError>(
            ConvertError::MissingFileStem,
        ),
        file_stem_of(input_path@) matches Some(stem) ==> r is Ok && r->Ok_0@ == expand(
            path_template@,
            stem,
            page as nat,
            n_pages as nat,
        ),
{
    match path_file_stem(input_path) {
        Some(stem) => Ok(expand_template(path_template, stem.as_str(), page, n_pages)),
        None => Err(ConvertError::MissingFileStem),
    }
}

/// The template holds an `{i}` placeholder, read as `expand` reads it.
pub open spec fn has_index_placeholder(template: Seq<char>) -> bool
    decreases template.len(),
{
    if template.len() == 0 {
        false
    } else if template.len() >= 2 && template[0] == '{' && template[1] == '}' {
        has_index_placeholder(template.skip(2))
    } else if template.len() >= 3 && template[0] == '{' && template[1] == 'i' && template[2] == '}' {
        true
    } else {
        has_index_placeholder(template.skip(1))
    }
}

proof fn lemma_decimal_len(n: nat)
    ensures
        decimal(n).len() >= 1,
        n >= 10 ==> decimal(n).len() >= 2,
    decreases n,
{
    if n >= 10 {
        lemma_decimal_len(n / 10);
    }
}

proof fn lemma_decimal_len_grows(a: nat, b: nat)
    requires
        a <= b,
    ensures
        decimal(a).len() <= decimal(b).len(),
    decreases b,
{
    lemma_decimal_len(a);
    lemma_decimal_len(b);
    if a >= 10 {
        lemma_decimal_len_grows(a / 10, b / 10);
    }
}

proof fn lemma_decimal_leading_digit(n: nat)
    ensures
        decimal(n)[0] == '0' ==> n == 0,
    decreases n,
{
    lemma_decimal_len(n);
    if n >= 10 {
        lemma_decimal_len(n / 10);
        lemma_decimal_leading_digit(n / 10);
        assert(decimal(n)[0] == decimal(n / 10)[0]);
    }
}

proof fn lemma_digit_char_injective(a: nat, b: nat)
    requires
        a < 10,
        b < 10,
        digit_char(a) == digit_char(b),
    ensures
        a == b,
{
}

proof fn lemma_decimal_injective(a: nat, b: nat)
    requires
        decimal(a) == decimal(b),
    ensures
        a == b,
    decreases a,
{
    lemma_decimal_len(a);
    lemma_decimal_len(b);
    if a >= 10 && b >= 10 {
        assert(decimal(a).drop_last() =~= decimal(a / 10));
        assert(decimal(b).drop_last() =~= decimal(b / 10));
        lemma_decimal_injective(a / 10, b / 10);
        assert(decimal(a).last() == digit_char(a % 10));
        assert(decimal(b).last() == digit_char(b % 10));
        lemma_digit_char_injective(a % 10, b % 10);
        assert(a == 10 * (a / 10) + a % 10);
        assert(b == 10 * (b / 10) + b % 10);
    } else if a < 10 && b < 10 {
        assert(decimal(a)[0] == digit_char(a));
        assert(decimal(b)[0] == digit_char(b));
        lemma_digit_char_injective(a, b);
    } else if a >= 10 {
        lemma_decimal_len(a / 10);
    } else if b >= 10 {
        lemma_decimal_len(b / 10);
    }
}

proof fn lemma_zero_padded_injective(a: nat, b: nat, width: nat)
    requires
        decimal(a).len() <= width,
        decimal(b).len() <= width,
        zero_padded(a, width) == zero_padded(b, width),
    ensures
        a == b,
{
    let la = decimal(a).len();
    let lb = decimal(b).len();
    let pa = zero_padded(a, width);
    lemma_decimal_len(a);
    lemma_decimal_len(b);
    if la == lb {
        assert(pa.skip(width - la) =~= decimal(a));
        assert(zero_padded(b, width).skip(width - lb) =~= decimal(b));
        lemma_decimal_injective(a, b);
    } else if la < lb {
        lemma_decimal_leading_digit(b);
        assert(pa[width - lb] == '0');
        assert(zero_padded(b, width)[width - lb] == decimal(b)[0]);
        assert(decimal(0) =~= seq!['0']);
    } else {
        lemma_decimal_leading_digit(a);
        assert(zero_padded(b, width)[width - la] == '0');
        assert(pa[width - la] == decimal(a)[0]);
        assert(decimal(0) =~= seq!['0']);
    }
}

proof fn lemma_expand_injective(template: Seq<char>, stem: Seq<char>, a: nat, b: nat, pages: nat)
    requires
        has_index_placeholder(template),
        decimal(a).len() <= decimal(pages).len(),
        decimal(b).len() <= decimal(pages).len(),
        expand(template, stem, a, pages) == expand(template, stem, b, pages),
    ensures
        a == b,
    decreases template.len(),
{
    let ea = expand(template, stem, a, pages);
    let eb = expand(template, stem, b, pages);
    if template.len() >= 2 && template[0] == '{' && template[1] == '}' {
        let ra = expand(template.skip(2), stem, a, pages);
        let rb = expand(template.skip(2), stem, b, pages);
        assert(ea.skip(stem.len() as int) =~= ra);
        assert(eb.skip(stem.len() as int) =~= rb);
        lemma_expand_injective(template.skip(2), stem, a, b, pages);
    } else if template.len() >= 3 && template[0] == '{' && template[1] == 'i' && template[2] == '}' {
        let w = decimal(pages).len();
        assert(ea.take(w as int) =~= zero_padded(a, w));
        assert(eb.take(w as int) =~= zero_padded(b, w));
        lemma_zero_padded_injective(a, b, w);
    } else {
        let ra = expand(template.skip(1), stem, a, pages);
        let rb = expand(template.skip(1), stem, b, pages);
        assert(ea.skip(1) =~= ra);
        assert(eb.skip(1) =~= rb);
        lemma_expand_injective(template.skip(1), stem, a, b, pages);
    }
}

/// Distinct frames of one source get distinct output paths when the template
/// holds an `{i}` placeholder: frame numbers `1..=count` never collide.
pub proof fn lemma_frame_paths_distinct(
    template: Seq<char>,
    stem: Seq<char>,
    a: nat,
    b: nat,
    count: nat,
)
    requires
        has_index_placeholder(template),
        1 <= a <= count,
        1 <= b <= count,
        a != b,
    ensures
        expand(template, stem, a, count) != expand(template, stem, b, count),
{
    lemma_decimal_len_grows(a, count);
    lemma_decimal_len_grows(b, count);
    if expand(template, stem, a, count) == expand(template, stem, b, count) {
        lemma_expand_injective(template, stem, a, b, count);
    }
}

} // verus!
