use vstd::prelude::*;

verus! {

/// The display class of a scope id under the standard highlight names of
/// [`TSSettings::new`](crate::TSSettings::new). A renderer turns each class
/// into a color of its theme.
#[derive(Clone, Copy, Debug, PartialEq, Eq, Structural)]
pub enum ScopeStyle {
    /// "comment"
    Comment,
    /// "constant" and "constant.builtin"
    Constant,
    /// "string" and "string.special"
    Str,
    /// "function" and "function.builtin"
    Function,
    /// "type" and "type.builtin"
    Type,
    /// "variable.builtin"
    Variable,
    /// "keyword" and "module"
    Special,
    /// every other id: no color of its own
    Plain,
}

/// Which class each standard scope id belongs to.
pub open spec fn style_spec(scope: usize) -> ScopeStyle {
    if scope == 1 {
        ScopeStyle::Comment
    } else if scope == 2 || scope == 3 {
        ScopeStyle::Constant
    } else if scope == 18 || scope == 19 {
        ScopeStyle::Str
    } else if scope == 6 || scope == 7 {
        ScopeStyle::Function
    } else if scope == 21 || scope == 22 {
        ScopeStyle::Type
    } else if scope == 24 {
        ScopeStyle::Variable
    } else if scope == 8 || scope == 9 {
        ScopeStyle::Special
    } else {
        ScopeStyle::Plain
    }
}

/// Comments and strings keep the proportional default font; every other
/// class is set in the monospace font.
pub open spec fn monospace_spec(style: ScopeStyle) -> bool {
    !(style == ScopeStyle::Comment || style == ScopeStyle::Str)
}

/// The display class of scope id `scope`.
pub fn style_of(scope: usize) -> (r: ScopeStyle)
    ensures
        r == style_spec(scope),
{
    match scope {
        1 => ScopeStyle::Comment,
        2 | 3 => ScopeStyle::Constant,
        18 | 19 => ScopeStyle::Str,
        6 | 7 => ScopeStyle::Function,
        21 | 22 => ScopeStyle::Type,
        24 => ScopeStyle::Variable,
        8 | 9 => ScopeStyle::Special,
        _ => ScopeStyle::Plain,
    }
}

impl ScopeStyle {
    /// Whether text of this class is set in the monospace font.
    pub fn is_monospace(self) -> (r: bool)
        ensures
            r == monospace_spec(self),
    {
        match self {
            ScopeStyle::Comment | ScopeStyle::Str => false,
            _ => true,
        }
    }
}

} // verus!
