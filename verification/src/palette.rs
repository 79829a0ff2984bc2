use vstd::prelude::*;
use crate::color::Color;
use crate::hex::{hex_to_rgb, parse_hex};

verus! {

/// A colour scheme as its author wrote it: base colours as hex texts in the
/// order that gives them precedence, and the two ground colours.
#[derive(Debug)]
pub struct Scheme {
    pub name: String,
    pub author: String,
    pub color: Vec<String>,
    pub foreground: String,
    pub background: String,
}

/// The texts that a list of strings holds.
pub open spec fn texts(list: Seq<String>) -> Seq<Seq<char>> {
    Seq::new(list.len(), |i: int| list[i]@)
}

/// The colours denoted by those of the given texts that denote one, in the
/// order of the texts. A text that denotes no colour leaves no trace.
pub open spec fn parsed_colors(entries: Seq<Seq<char>>) -> Seq<Color>
    decreases entries.len(),
{
    if entries.len() == 0 {
        Seq::empty()
    } else {
        let earlier = parsed_colors(entries.drop_last());
        match parse_hex(entries.last()) {
            Some(c) => earlier.push(c),
            None => earlier,
        }
    }
}

impl Scheme {
    /// Puts a scheme together from its parts.
    pub fn new(
        name: String,
        author: String,
        color: Vec<String>,
        foreground: String,
        background: String,
    ) -> (scheme: Scheme)
        ensures
            scheme == (Scheme { name, author, color, foreground, background }),
    {
        Scheme { name, author, color, foreground, background }
    }

    /// The texts from which the palette is read: the base colours, then the
    /// foreground, then the background.
    pub open spec fn entries(self) -> Seq<Seq<char>> {
        texts(self.color@).push(self.foreground@).push(self.background@)
    }
}

/// The candidate colours of a run, in order of precedence.
#[derive(Debug)]
pub struct Palette {
    colors: Vec<Color>,
}

impl View for Palette {
    type V = Seq<Color>;

    closed spec fn view(&self) -> Seq<Color> {
        self.colors@
    }
}

fn push_parsed(colors: &mut Vec<Color>, text: &str)
    ensures
        final(colors)@ == match parse_hex(text@) {
            Some(c) => old(colors)@.push(c),
            None => old(colors)@,
        },
{
    match hex_to_rgb(text) {
        Ok(c) => {
            colors.push(c);
        },
        Err(_) => {},
    }
}

impl Palette {
    /// A palette of the given colours, in the given order.
    pub fn new(colors: Vec<Color>) -> (palette: Palette)
        ensures
            palette@ == colors@,
    {
        Palette { colors }
    }

    /// Reads the palette of a scheme: its base colours, then its foreground,
    /// then its background, without those whose text denotes no colour.
    pub fn from_scheme(scheme: &Scheme) -> (palette: Palette)
        ensures
            palette@ == parsed_colors(scheme.entries()),
            palette@.len() <= scheme.color@.len() + 2,
    {
        proof {
            lemma_parsed_colors_len(scheme.entries());
        }
        let ghost base = texts(scheme.color@);
        let mut colors: Vec<Color> = Vec::new();
        let n: usize = scheme.color.len();
        let mut i: usize = 0;
        while i < n
            invariant
                i <= n,
                n == scheme.color.len(),
                base == texts(scheme.color@),
                colors@ == parsed_colors(base.take(i as int)),
            decreases n - i,
        {
            proof {
                let upto = base.take(i + 1);
                assert(upto.drop_last() == base.take(i as int));
                assert(upto.last() == scheme.color@[i as int]@);
            }
            push_parsed(&mut colors, scheme.color[i].as_str());
            i += 1;
        }
        let ghost with_fore = base.push(scheme.foreground@);
        proof {
            assert(base.take(n as int) == base);
            assert(with_fore.drop_last() == base);
            assert(with_fore.last() == scheme.foreground@);
        }
        push_parsed(&mut colors, scheme.foreground.as_str());
        assert(colors@ == parsed_colors(with_fore));
        proof {
            assert(scheme.entries().drop_last() == with_fore);
            assert(scheme.entries().last() == scheme.background@);
        }
        push_parsed(&mut colors, scheme.background.as_str());
        Palette { colors }
    }

    /// The number of colours in the palette.
    pub fn len(&self) -> (n: usize)
        ensures
            n == self@.len(),
    {
        self.colors.len()
    }

    /// Whether the palette holds no colour.
    pub fn is_empty(&self) -> (empty: bool)
        ensures
            empty == (self@.len() == 0),
    {
        self.colors.len() == 0
    }

    /// The colours of the palette, in order.
    pub fn colors(&self) -> (colors: &Vec<Color>)
        ensures
            colors@ == self@,
    {
        &self.colors
    }
}

/// No more colours are read than there are texts.
pub proof fn lemma_parsed_colors_len(entries: Seq<Seq<char>>)
    ensures
        parsed_colors(entries).len() <= entries.len(),
    decreases entries.len(),
{
    if entries.len() > 0 {
        lemma_parsed_colors_len(entries.drop_last());
    }
}

/// Where no text denotes a colour, no colour is read: the palette of a
/// scheme whose every entry is malformed is empty.
pub proof fn lemma_all_malformed_is_empty(entries: Seq<Seq<char>>)
    requires
        forall|i: int| 0 <= i < entries.len() ==> parse_hex(#[trigger] entries[i]) is None,
    ensures
        parsed_colors(entries).len() == 0,
    decreases entries.len(),
{
    if entries.len() > 0 {
        let earlier = entries.drop_last();
        assert forall|i: int| 0 <= i < earlier.len() implies parse_hex(#[trigger] earlier[i])
            is None by {
            assert(earlier[i] == entries[i]);
        }
        lemma_all_malformed_is_empty(earlier);
        assert(entries.last() == entries[entries.len() - 1]);
    }
}

/// Where every text denotes a colour, the colours read are those, one for
/// one and in the same order.
pub proof fn lemma_all_well_formed_is_kept(entries: Seq<Seq<char>>)
    requires
        forall|i: int| 0 <= i < entries.len() ==> parse_hex(#[trigger] entries[i]) is Some,
    ensures
        parsed_colors(entries).len() == entries.len(),
        forall|i: int|
            0 <= i < entries.len() ==> parse_hex(entries[i]) == Some(
                #[trigger] parsed_colors(entries)[i],
            ),
    decreases entries.len(),
{
    if entries.len() > 0 {
        let earlier = entries.drop_last();
        assert forall|i: int| 0 <= i < earlier.len() implies parse_hex(#[trigger] earlier[i])
            is Some by {
            assert(earlier[i] == entries[i]);
        }
        lemma_all_well_formed_is_kept(earlier);
        assert(entries.last() == entries[entries.len() - 1]);
        assert forall|i: int| 0 <= i < entries.len() implies parse_hex(entries[i]) == Some(
            #[trigger] parsed_colors(entries)[i],
        ) by {
            if i < earlier.len() {
                assert(earlier[i] == entries[i]);
                assert(parsed_colors(entries)[i] == parsed_colors(earlier)[i]);
            }
        }
    }
}

/// Reading is done text by text: the colours of two lists put end to end are
/// the colours of the first followed by the colours of the second.
pub proof fn lemma_parsed_colors_concat(first: Seq<Seq<char>>, second: Seq<Seq<char>>)
    ensures
        parsed_colors(first + second) == parsed_colors(first) + parsed_colors(second),
    decreases second.len(),
{
    if second.len() == 0 {
        assert(first + second == first);
        assert(parsed_colors(first) + parsed_colors(second) == parsed_colors(first));
    } else {
        let whole = first + second;
        assert(whole.drop_last() == first + second.drop_last());
        assert(whole.last() == second.last());
        lemma_parsed_colors_concat(first, second.drop_last());
        match parse_hex(second.last()) {
            Some(c) => {
                assert((parsed_colors(first) + parsed_colors(second.drop_last())).push(c)
                    == parsed_colors(first) + parsed_colors(second.drop_last()).push(c));
            },
            None => {},
        }
    }
}

/// The palette of a scheme is what its base colours give, followed by what
/// its foreground gives, followed by what its background gives.
pub proof fn lemma_scheme_palette_order(scheme: Scheme)
    ensures
        parsed_colors(scheme.entries()) == parsed_colors(texts(scheme.color@)) + parsed_colors(
            seq![scheme.foreground@],
        ) + parsed_colors(seq![scheme.background@]),
{
    let base = texts(scheme.color@);
    let fore = seq![scheme.foreground@];
    let back = seq![scheme.background@];
    assert(scheme.entries() == (base + fore) + back);
    lemma_parsed_colors_concat(base + fore, back);
    lemma_parsed_colors_concat(base, fore);
}

} // verus!
