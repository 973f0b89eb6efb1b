//! Logical text styles: a foreground colour class and two sets of modifiers.

use vstd::prelude::*;

verus! {

/// Foreground colour classes that the layout assigns.
#[derive(Clone, Copy, Debug, PartialEq, Eq, Structural)]
pub enum Color {
    Red,
    Gray,
}

/// A single text modifier.
#[derive(Clone, Copy, Debug, PartialEq, Eq, Structural)]
pub enum Modifier {
    Bold,
    Italic,
    Underlined,
}

/// A set of modifiers.
#[derive(Clone, Copy, Debug, PartialEq, Eq, Structural)]
pub struct Modifiers {
    pub bold: bool,
    pub italic: bool,
    pub underlined: bool,
}

impl Modifiers {
    /// The empty set.
    #[verifier::allow_in_spec]
    pub fn empty() -> Modifiers
        returns
            (Modifiers { bold: false, italic: false, underlined: false }),
    {
        Modifiers { bold: false, italic: false, underlined: false }
    }

    /// Whether `modifier` is in the set.
    #[verifier::allow_in_spec]
    pub fn contains(self, modifier: Modifier) -> bool
        returns
            (match modifier {
                Modifier::Bold => self.bold,
                Modifier::Italic => self.italic,
                Modifier::Underlined => self.underlined,
            }),
    {
        match modifier {
            Modifier::Bold => self.bold,
            Modifier::Italic => self.italic,
            Modifier::Underlined => self.underlined,
        }
    }

    /// The set with `modifier` added.
    pub fn insert(self, modifier: Modifier) -> (r: Modifiers)
        ensures
            r == self.union(Modifiers::single(modifier)),
            forall|m: Modifier| r.contains(m) == (m == modifier || self.contains(m)),
    {
        self.union(Modifiers::single(modifier))
    }

    /// The set that holds `modifier` alone.
    #[verifier::allow_in_spec]
    pub fn single(modifier: Modifier) -> Modifiers
        returns
            (Modifiers {
                bold: modifier == Modifier::Bold,
                italic: modifier == Modifier::Italic,
                underlined: modifier == Modifier::Underlined,
            }),
    {
        Modifiers {
            bold: modifier == Modifier::Bold,
            italic: modifier == Modifier::Italic,
            underlined: modifier == Modifier::Underlined,
        }
    }

    /// Every modifier of either set.
    #[verifier::allow_in_spec]
    pub fn union(self, other: Modifiers) -> Modifiers
        returns
            (Modifiers {
                bold: self.bold || other.bold,
                italic: self.italic || other.italic,
                underlined: self.underlined || other.underlined,
            }),
    {
        Modifiers {
            bold: self.bold || other.bold,
            italic: self.italic || other.italic,
            underlined: self.underlined || other.underlined,
        }
    }

    /// The modifiers of `self` that are not in `other`.
    #[verifier::allow_in_spec]
    pub fn difference(self, other: Modifiers) -> Modifiers
        returns
            (Modifiers {
                bold: self.bold && !other.bold,
                italic: self.italic && !other.italic,
                underlined: self.underlined && !other.underlined,
            }),
    {
        Modifiers {
            bold: self.bold && !other.bold,
            italic: self.italic && !other.italic,
            underlined: self.underlined && !other.underlined,
        }
    }
}

/// A style: an optional foreground colour, the modifiers to switch on and the
/// modifiers to switch off.
#[derive(Clone, Copy, Debug, PartialEq, Eq)]
pub struct Style {
    pub fg: Option<Color>,
    pub add_modifier: Modifiers,
    pub sub_modifier: Modifiers,
}

impl Style {
    /// The style that changes nothing.
    #[verifier::allow_in_spec]
    pub fn new() -> Style
        returns
            (Style { fg: None, add_modifier: Modifiers::empty(), sub_modifier: Modifiers::empty() }),
    {
        Style { fg: None, add_modifier: Modifiers::empty(), sub_modifier: Modifiers::empty() }
    }

    /// The style with its foreground colour set to `color`.
    #[verifier::allow_in_spec]
    pub fn fg(self, color: Color) -> Style
        returns
            (Style { fg: Some(color), ..self }),
    {
        Style { fg: Some(color), ..self }
    }

    /// The style that switches `modifier` on: it joins the added set and
    /// leaves the removed set.
    #[verifier::allow_in_spec]
    pub fn add_modifier(self, modifier: Modifier) -> Style
        returns
            (Style {
                sub_modifier: self.sub_modifier.difference(Modifiers::single(modifier)),
                add_modifier: self.add_modifier.union(Modifiers::single(modifier)),
                ..self
            }),
    {
        Style {
            sub_modifier: self.sub_modifier.difference(Modifiers::single(modifier)),
            add_modifier: self.add_modifier.union(Modifiers::single(modifier)),
            ..self
        }
    }

    /// The style that switches `modifier` off: it leaves the added set and
    /// joins the removed set.
    #[verifier::allow_in_spec]
    pub fn remove_modifier(self, modifier: Modifier) -> Style
        returns
            (Style {
                add_modifier: self.add_modifier.difference(Modifiers::single(modifier)),
                sub_modifier: self.sub_modifier.union(Modifiers::single(modifier)),
                ..self
            }),
    {
        Style {
            add_modifier: self.add_modifier.difference(Modifiers::single(modifier)),
            sub_modifier: self.sub_modifier.union(Modifiers::single(modifier)),
            ..self
        }
    }

    /// The style that applies `self` and then `other`: the colour of `other`
    /// wins where it has one, and what `other` adds or removes overrides what
    /// `self` removes or adds.
    #[verifier::allow_in_spec]
    pub fn patch(self, other: Style) -> Style
        returns
            (Style {
                fg: if other.fg is Some { other.fg } else { self.fg },
                add_modifier: self.add_modifier.difference(other.sub_modifier).union(
                    other.add_modifier,
                ),
                sub_modifier: self.sub_modifier.difference(other.add_modifier).union(
                    other.sub_modifier,
                ),
            }),
    {
        Style {
            fg: if other.fg.is_some() { other.fg } else { self.fg },
            add_modifier: self.add_modifier.difference(other.sub_modifier).union(
                other.add_modifier,
            ),
            sub_modifier: self.sub_modifier.difference(other.add_modifier).union(
                other.sub_modifier,
            ),
        }
    }

    /// Whether text in this style shows `modifier`.
    #[verifier::allow_in_spec]
    pub fn shows(self, modifier: Modifier) -> bool
        returns
            self.add_modifier.contains(modifier),
    {
        self.add_modifier.contains(modifier)
    }
}

impl Default for Style {
    fn default() -> (r: Style)
        ensures
            r == Style::new(),
    {
        Style::new()
    }
}

/// A modifier that was added and then removed is off, whatever the style was.
pub proof fn lemma_add_then_remove(s: Style, m: Modifier)
    ensures
        !s.add_modifier(m).remove_modifier(m).shows(m),
        s.add_modifier(m).shows(m),
        forall|k: Modifier| k != m ==> s.add_modifier(m).remove_modifier(m).shows(k) == s.shows(k),
{
}

} // verus!
