//! Grapheme clusters as the layout engine sees them: a symbol, its style and
//! its measured width, with the tests that classify a symbol.

use easy_cast::Cast;
use tui::style::Style;
use unicode_segmentation::UnicodeSegmentation;
use unicode_width::UnicodeWidthStr;
use vstd::prelude::*;

verus! {

/// The visual style of a cell. The layout engine carries it and never looks inside.
#[verifier::external_type_specification]
#[verifier::external_body]
pub struct ExStyle(tui::style::Style);

/// The number of terminal columns that `unicode_width` measures for a string.
pub uninterp spec fn display_width(s: Seq<char>) -> nat;

/// The extended grapheme clusters into which `unicode_segmentation` cuts a string.
pub uninterp spec fn grapheme_clusters(s: Seq<char>) -> Seq<Seq<char>>;

/// Whether std counts a character as white space.
pub uninterp spec fn is_whitespace_char(c: char) -> bool;

/// The style that `tui` makes of a base style patched with another.
pub uninterp spec fn patched_style(base: Style, over: Style) -> Style;

/// `UnicodeWidthStr::width` of `unicode_width`: the columns a string takes.
/// Nothing is claimed of the number but that it depends on the string alone.
#[verifier::external_body]
pub(crate) fn str_width(s: &str) -> (w: usize)
    ensures
        w == display_width(s@),
{
    UnicodeWidthStr::width(s)
}

/// `UnicodeSegmentation::graphemes` of `unicode_segmentation`, in extended
/// mode, each cluster copied into a string of its own. Nothing is claimed of
/// the clusters but that they depend on the string alone.
#[verifier::external_body]
pub(crate) fn split_graphemes(s: &str) -> (clusters: Vec<String>)
    ensures
        clusters@.len() == grapheme_clusters(s@).len(),
        forall|i: int| 0 <= i < clusters@.len() ==> (#[trigger] clusters@[i])@ == grapheme_clusters(s@)[i],
{
    UnicodeSegmentation::graphemes(s, true).map(|g| g.to_string()).collect()
}

/// `char::is_whitespace` of std: the answer depends on the character alone.
pub assume_specification[ char::is_whitespace ](c: char) -> (b: bool)
    ensures
        b == is_whitespace_char(c),
;

/// `Style::patch` of `tui`: the result depends on the two styles alone.
#[verifier::external_body]
pub(crate) fn patch_style(base: Style, over: Style) -> (s: Style)
    ensures
        s == patched_style(base, over),
{
    base.patch(over)
}

/// `Style::default` of `tui`. Nothing is claimed of the style it gives.
#[verifier::external_body]
pub(crate) fn default_style() -> Style {
    Style::default()
}

/// `Cast::<u16>::cast` of `easy_cast` on a `usize`. It keeps a value that fits
/// and may panic on one that does not, so those are left out.
#[verifier::external_body]
pub(crate) fn narrow_to_u16(v: usize) -> (n: u16)
    requires
        v <= u16::MAX,
    ensures
        n == v,
{
    Cast::<u16>::cast(v)
}

/// Whether every character of a symbol is white space. True of the empty symbol.
pub open spec fn all_whitespace(s: Seq<char>) -> bool {
    forall|i: int| 0 <= i < s.len() ==> is_whitespace_char(#[trigger] s[i])
}

/// The part a grapheme plays when lines are broken.
#[derive(Clone, Copy, Debug, PartialEq, Eq, Structural)]
pub enum Role {
    /// Anything that is not white space: lines keep it.
    Solid,
    /// The non-breaking space: blank, but no place to break a line.
    NonBreaking,
    /// White space at which a line may be broken.
    Space,
    /// The mark that ends a source line.
    LineBreak,
}

/// The role of a symbol: a lone line feed ends a line, a lone non-breaking
/// space is blank without breaking, other white space is a space, the empty
/// symbol too, and all else is solid.
pub open spec fn role_of(symbol: Seq<char>) -> Role {
    if symbol == seq!['\n'] {
        Role::LineBreak
    } else if !all_whitespace(symbol) {
        Role::Solid
    } else if symbol == seq!['\u{a0}'] {
        Role::NonBreaking
    } else {
        Role::Space
    }
}

/// One grapheme cluster with its style, the columns it takes on screen and
/// its role in line breaking.
pub struct StyledGrapheme {
    pub symbol: String,
    pub style: Style,
    pub width: u16,
    pub role: Role,
}

impl StyledGrapheme {
    /// The mark that ends a source line.
    pub open spec fn is_line_break(&self) -> bool {
        self.role is LineBreak
    }

    /// White space of any kind, the non-breaking space and the line break included.
    pub open spec fn is_blank(&self) -> bool {
        !(self.role is Solid)
    }

    /// White space at which a line may be broken: not the non-breaking space.
    pub open spec fn is_space(&self) -> bool {
        self.role is Space || self.role is LineBreak
    }

    /// Width and role are those of the symbol: the width the measured one,
    /// held at the largest `u16` where it is larger.
    pub open spec fn is_measured(&self) -> bool {
        &&& self.width as nat == if display_width(self.symbol@) <= u16::MAX {
            display_width(self.symbol@)
        } else {
            u16::MAX as nat
        }
        &&& self.role == role_of(self.symbol@)
    }

    /// A grapheme of the given symbol and style, with its width and role.
    pub fn new(symbol: String, style: Style) -> (g: Self)
        ensures
            g.symbol == symbol,
            g.style == style,
            g.is_measured(),
    {
        let w = str_width(symbol.as_str());
        let width = if w <= 0xFFFF {
            narrow_to_u16(w)
        } else {
            0xFFFFu16
        };
        let role = if is_single_char(symbol.as_str(), '\n') {
            Role::LineBreak
        } else if !is_all_whitespace(symbol.as_str()) {
            Role::Solid
        } else if is_single_char(symbol.as_str(), '\u{a0}') {
            Role::NonBreaking
        } else {
            Role::Space
        };
        StyledGrapheme { symbol, style, width, role }
    }

    /// A second grapheme equal to this one.
    pub fn duplicate(&self) -> (g: Self)
        ensures
            g == *self,
    {
        StyledGrapheme { symbol: self.symbol.clone(), style: self.style, width: self.width, role: self.role }
    }

    pub fn breaks_line(&self) -> (b: bool)
        ensures
            b == self.is_line_break(),
    {
        match self.role {
            Role::LineBreak => true,
            _ => false,
        }
    }

    pub fn blank(&self) -> (b: bool)
        ensures
            b == self.is_blank(),
    {
        match self.role {
            Role::Solid => false,
            _ => true,
        }
    }

    pub fn space(&self) -> (b: bool)
        ensures
            b == self.is_space(),
    {
        match self.role {
            Role::Space => true,
            Role::LineBreak => true,
            _ => false,
        }
    }
}

/// Whether a string is exactly the one character `c`.
pub fn is_single_char(s: &str, c: char) -> (b: bool)
    ensures
        b == (s@ == seq![c]),
{
    if s.unicode_len() != 1 {
        return false;
    }
    let first = s.get_char(0);
    proof {
        if first == c {
            assert(s@ =~= seq![c]);
        } else {
            assert(seq![c][0] == c);
        }
    }
    first == c
}

/// Whether a string holds white space only.
pub fn is_all_whitespace(s: &str) -> (b: bool)
    ensures
        b == all_whitespace(s@),
{
    let n = s.unicode_len();
    let mut i: usize = 0;
    while i < n
        invariant
            n == s@.len(),
            i <= n,
            forall|j: int| 0 <= j < i ==> is_whitespace_char(#[trigger] s@[j]),
        decreases n - i,
    {
        let c = s.get_char(i);
        if !c.is_whitespace() {
            return false;
        }
        i += 1;
    }
    true
}

/// The summed widths of a run of graphemes, in columns.
pub open spec fn total_width(s: Seq<StyledGrapheme>) -> int
    decreases s.len(),
{
    if s.len() == 0 {
        0
    } else {
        total_width(s.drop_last()) + s.last().width
    }
}

/// Appending a grapheme adds its width.
pub proof fn lemma_total_width_push(s: Seq<StyledGrapheme>, g: StyledGrapheme)
    ensures
        total_width(s.push(g)) == total_width(s) + g.width,
{
    assert(s.push(g).drop_last() =~= s);
}

/// Widths are never negative.
pub proof fn lemma_total_width_nonnegative(s: Seq<StyledGrapheme>)
    ensures
        total_width(s) >= 0,
    decreases s.len(),
{
    if s.len() > 0 {
        lemma_total_width_nonnegative(s.drop_last());
    }
}

/// Splitting a run in two splits its width.
pub proof fn lemma_total_width_split(s: Seq<StyledGrapheme>, k: int)
    requires
        0 <= k <= s.len(),
    ensures
        total_width(s) == total_width(s.take(k)) + total_width(s.skip(k)),
    decreases s.len(),
{
    if k == s.len() {
        assert(s.take(k) =~= s);
        assert(s.skip(k).len() == 0);
    } else {
        lemma_total_width_split(s.drop_last(), k);
        assert(s.drop_last().take(k) =~= s.take(k));
        assert(s.skip(k).drop_last() =~= s.drop_last().skip(k));
        assert(s.skip(k).last() == s.last());
    }
}

} // verus!
