use vstd::prelude::*;
use vstd::string::*;

verus! {

/// An 8-bit RGBA color, channels in the order red, green, blue, alpha.
#[derive(Clone, Copy, Debug, PartialEq, Eq, Structural)]
pub struct Rgba8 {
    pub red: u8,
    pub green: u8,
    pub blue: u8,
    pub alpha: u8,
}

impl Rgba8 {
    /// The four channels as they are laid out in an image buffer.
    pub open spec fn bytes(self) -> Seq<u8> {
        seq![self.red, self.green, self.blue, self.alpha]
    }

    pub open spec fn from_tuple(t: (u8, u8, u8, u8)) -> Rgba8 {
        Rgba8 { red: t.0, green: t.1, blue: t.2, alpha: t.3 }
    }
}

impl Default for Rgba8 {
    /// Opaque black.
    fn default() -> (r: Rgba8)
        ensures
            r == (Rgba8 { red: 0, green: 0, blue: 0, alpha: 255 }),
    {
        Rgba8 { red: 0, green: 0, blue: 0, alpha: 255 }
    }
}

/// The channels of the color that a CSS-style color literal (a name, a hex code, or a
/// function such as `rgba(..)` or `hsl(..)`) denotes, or `None` where the text is no such
/// literal.
pub uninterp spec fn css_color(s: Seq<char>) -> Option<(u8, u8, u8, u8)>;

/// The color that the literal `s` denotes, if any.
pub open spec fn color_literal(s: Seq<char>) -> Option<Rgba8> {
    match css_color(s) {
        Some(t) => Some(Rgba8::from_tuple(t)),
        None => None,
    }
}

/// ASCII, or the degree sign that hue-based color functions may carry.
pub open spec fn plain_char(c: char) -> bool {
    (c as u32) < 128 || c == '\u{b0}'
}

/// `c` is the lower-case letter `l`, in either case.
pub open spec fn fold_eq(c: char, l: char) -> bool {
    c == l || (l as u32 >= 32 && c as u32 == l as u32 - 32)
}

/// Number of commas in `s`.
pub open spec fn commas(s: Seq<char>) -> nat
    decreases s.len(),
{
    if s.len() == 0 {
        0
    } else {
        commas(s.drop_last()) + if s.last() == ',' {
            1nat
        } else {
            0nat
        }
    }
}

/// A `%` stands in the `k`-th comma-separated field of `s`.
pub open spec fn percent_in(s: Seq<char>, k: nat) -> bool {
    exists|i: int| 0 <= i < s.len() && s[i] == '%' && commas(#[trigger] s.take(i)) == k
}

/// `name` occurs at `i`, in either case, before the first comma of `s`.
pub open spec fn name_at(s: Seq<char>, name: Seq<char>, i: int) -> bool {
    &&& 0 <= i
    &&& i + name.len() <= s.len()
    &&& forall|j: int| 0 <= j < i + name.len() ==> s[j] != ','
    &&& forall|j: int| 0 <= j < name.len() ==> fold_eq(#[trigger] s[i + j], name[j])
}

pub open spec fn name_in_first_field(s: Seq<char>, name: Seq<char>) -> bool {
    exists|i: int| name_at(s, name, i)
}

/// Literals that the color parser is not handed. Besides text with other characters than
/// ASCII and the degree sign, these are the `cmyk(..)` forms whose first value has no unit
/// and the `rgb(..)` forms that give the first value in percent but not the next two: on
/// those the parser stops the program instead of refusing the text. Each of them is
/// malformed, or well-formed only in a way that the parser cannot take.
pub open spec fn refused_literal(s: Seq<char>) -> bool {
    ||| exists|i: int| 0 <= i < s.len() && !plain_char(#[trigger] s[i])
    ||| name_in_first_field(s, seq!['c', 'm', 'y', 'k']) && !percent_in(s, 0) && commas(s) >= 1
    ||| name_in_first_field(s, seq!['r', 'g', 'b']) && percent_in(s, 0) && commas(s) >= 2 && !(
    percent_in(s, 1) && percent_in(s, 2))
}

/// The color that `s` gives once the literals the parser is not handed are set aside.
pub open spec fn accepted_color(s: Seq<char>) -> Option<Rgba8> {
    if refused_literal(s) {
        None
    } else {
        color_literal(s)
    }
}

/// Relies on color_processing::Color::new_string: parses a color literal into its four
/// 8-bit channels, and refuses the empty string.
#[verifier::external_body]
pub(crate) fn parse_css_color(s: &str) -> (r: Option<Rgba8>)
    requires
        !refused_literal(s@),
    ensures
        match css_color(s@) {
            Some(t) => r == Some(Rgba8::from_tuple(t)),
            None => r.is_none(),
        },
        s@.len() == 0 ==> r.is_none(),
{
    match color_processing::Color::new_string(s) {
        Ok(c) => Some(Rgba8 { red: c.red, green: c.green, blue: c.blue, alpha: c.alpha }),
        Err(_) => None,
    }
}

proof fn lemma_commas_push(s: Seq<char>, i: int)
    requires
        0 <= i < s.len(),
    ensures
        commas(s.take(i + 1)) == commas(s.take(i)) + if s[i] == ',' {
            1nat
        } else {
            0nat
        },
{
    assert(s.take(i + 1).drop_last() =~= s.take(i));
}

/// The characters of `s`, one by one.
fn chars_of(s: &str) -> (r: Vec<char>)
    ensures
        r@ == s@,
{
    let n = s.unicode_len();
    let mut r: Vec<char> = Vec::new();
    let mut i: usize = 0;
    while i < n
        invariant
            n == s@.len(),
            i <= n,
            r@ =~= s@.take(i as int),
        decreases n - i,
    {
        r.push(s.get_char(i));
        i = i + 1;
    }
    assert(r@ =~= s@);
    r
}

fn has_other_chars(cs: &Vec<char>) -> (r: bool)
    ensures
        r == exists|i: int| 0 <= i < cs@.len() && !plain_char(#[trigger] cs@[i]),
{
    let mut i: usize = 0;
    while i < cs.len()
        invariant
            i <= cs@.len(),
            forall|j: int| 0 <= j < i ==> plain_char(#[trigger] cs@[j]),
        decreases cs@.len() - i,
    {
        let c = cs[i];
        if !((c as u32) < 128 || c == '\u{b0}') {
            return true;
        }
        i = i + 1;
    }
    false
}

fn count_commas(cs: &Vec<char>) -> (r: usize)
    ensures
        r == commas(cs@),
{
    let mut n: usize = 0;
    let mut i: usize = 0;
    while i < cs.len()
        invariant
            i <= cs@.len(),
            n == commas(cs@.take(i as int)),
            n <= i,
        decreases cs@.len() - i,
    {
        proof {
            lemma_commas_push(cs@, i as int);
        }
        if cs[i] == ',' {
            n = n + 1;
        }
        i = i + 1;
    }
    assert(cs@.take(i as int) =~= cs@);
    n
}

fn has_percent_in(cs: &Vec<char>, k: usize) -> (r: bool)
    ensures
        r == percent_in(cs@, k as nat),
{
    let mut n: usize = 0;
    let mut i: usize = 0;
    while i < cs.len()
        invariant
            i <= cs@.len(),
            n == commas(cs@.take(i as int)),
            n <= i,
            forall|j: int| 0 <= j < i && cs@[j] == '%' ==> commas(#[trigger] cs@.take(j)) != k,
        decreases cs@.len() - i,
    {
        if cs[i] == '%' && n == k {
            return true;
        }
        proof {
            lemma_commas_push(cs@, i as int);
        }
        if cs[i] == ',' {
            n = n + 1;
        }
        i = i + 1;
    }
    false
}

fn first_comma(cs: &Vec<char>) -> (f: usize)
    ensures
        f <= cs@.len(),
        forall|j: int| 0 <= j < f ==> cs@[j] != ',',
        f < cs@.len() ==> cs@[f as int] == ',',
{
    let mut i: usize = 0;
    while i < cs.len()
        invariant
            i <= cs@.len(),
            forall|j: int| 0 <= j < i ==> cs@[j] != ',',
        decreases cs@.len() - i,
    {
        if cs[i] == ',' {
            return i;
        }
        i = i + 1;
    }
    i
}

fn has_name_in_first_field(cs: &Vec<char>, name: &Vec<char>) -> (r: bool)
    ensures
        r == name_in_first_field(cs@, name@),
{
    let f = first_comma(cs);
    let mut i: usize = 0;
    while name.len() <= f - i
        invariant
            i <= f,
            f <= cs@.len(),
            forall|j: int| 0 <= j < f ==> cs@[j] != ',',
            f < cs@.len() ==> cs@[f as int] == ',',
            forall|p: int| 0 <= p < i ==> !name_at(cs@, name@, p),
        decreases f - i,
    {
        let mut j: usize = 0;
        let mut ok = true;
        while j < name.len()
            invariant
                i + name@.len() <= f,
                f <= cs@.len(),
                j <= name@.len(),
                ok == forall|q: int| 0 <= q < j ==> fold_eq(#[trigger] cs@[i + q], name@[q]),
            decreases name@.len() - j,
        {
            let c = cs[i + j];
            let l = name[j];
            if !(c == l || (l as u32 >= 32 && c as u32 == l as u32 - 32)) {
                ok = false;
            }
            j = j + 1;
        }
        if ok {
            proof {
                assert(name_at(cs@, name@, i as int));
            }
            return true;
        }
        proof {
            assert(!name_at(cs@, name@, i as int));
        }
        i = i + 1;
    }
    proof {
        assert forall|p: int| !name_at(cs@, name@, p) by {
            if name_at(cs@, name@, p) && p >= i {
                if f < cs@.len() {
                    assert(cs@[f as int] != ',');
                }
            }
        }
    }
    false
}

/// Whether `s` is one of the literals that the color parser is not handed.
pub fn is_refused_literal(s: &str) -> (r: bool)
    ensures
        r == refused_literal(s@),
{
    let cs = chars_of(s);
    if has_other_chars(&cs) {
        return true;
    }
    let n = count_commas(&cs);
    let cmyk = vec!['c', 'm', 'y', 'k'];
    let rgb = vec!['r', 'g', 'b'];
    proof {
        assert(cmyk@ =~= seq!['c', 'm', 'y', 'k']);
        assert(rgb@ =~= seq!['r', 'g', 'b']);
    }
    if n >= 1 && has_name_in_first_field(&cs, &cmyk) && !has_percent_in(&cs, 0) {
        return true;
    }
    n >= 2 && has_name_in_first_field(&cs, &rgb) && has_percent_in(&cs, 0) && !(has_percent_in(
        &cs,
        1,
    ) && has_percent_in(&cs, 2))
}

} // verus!
