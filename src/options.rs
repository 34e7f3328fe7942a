use vstd::prelude::*;
use crate::text::str_is;

verus! {

/// Which label set of the stored matrix becomes the header of the table.
#[derive(Clone, Copy, Debug, PartialEq, Eq, Structural)]
pub enum Orient {
    /// Columns as stored: the column labels form the header, one record per stored row.
    VarNames,
    /// Transposed: the row labels form the header, one record per stored column.
    ObsNames,
}

/// The closed set of field delimiters a table can be written with.
#[derive(Clone, Copy, Debug, PartialEq, Eq, Structural)]
pub enum Delimiter {
    Comma,
    Tab,
    Colon,
    Pipe,
    Semicolon,
}

pub open spec fn orient_of_name(name: Seq<char>) -> Option<Orient> {
    if name == "var-names"@ {
        Some(Orient::VarNames)
    } else if name == "obs-names"@ {
        Some(Orient::ObsNames)
    } else {
        None
    }
}

impl Orient {
    /// Reads an orientation from its option name, `var-names` or `obs-names`.
    pub fn from_name(name: &str) -> (r: Option<Orient>)
        ensures
            r == orient_of_name(name@),
    {
        if str_is(name, "var-names") {
            Some(Orient::VarNames)
        } else if str_is(name, "obs-names") {
            Some(Orient::ObsNames)
        } else {
            None
        }
    }
}

/// The byte that separates fields for each delimiter: the ASCII codes of
/// comma, tab, colon, vertical bar and semicolon.
pub open spec fn delimiter_byte(d: Delimiter) -> u8 {
    match d {
        Delimiter::Comma => 44,
        Delimiter::Tab => 9,
        Delimiter::Colon => 58,
        Delimiter::Pipe => 124,
        Delimiter::Semicolon => 59,
    }
}

pub open spec fn delimiter_of_name(name: Seq<char>) -> Option<Delimiter> {
    if name == "comma"@ {
        Some(Delimiter::Comma)
    } else if name == "tab"@ {
        Some(Delimiter::Tab)
    } else if name == "colon"@ {
        Some(Delimiter::Colon)
    } else if name == "pipe"@ {
        Some(Delimiter::Pipe)
    } else if name == "semicolon"@ {
        Some(Delimiter::Semicolon)
    } else {
        None
    }
}

impl Delimiter {
    /// Reads a delimiter from its option name: `comma`, `tab`, `colon`,
    /// `pipe` or `semicolon`.
    pub fn from_name(name: &str) -> (r: Option<Delimiter>)
        ensures
            r == delimiter_of_name(name@),
    {
        if str_is(name, "comma") {
            Some(Delimiter::Comma)
        } else if str_is(name, "tab") {
            Some(Delimiter::Tab)
        } else if str_is(name, "colon") {
            Some(Delimiter::Colon)
        } else if str_is(name, "pipe") {
            Some(Delimiter::Pipe)
        } else if str_is(name, "semicolon") {
            Some(Delimiter::Semicolon)
        } else {
            None
        }
    }

    /// The field separator byte.
    pub fn byte(&self) -> (r: u8)
        ensures
            r == delimiter_byte(*self),
    {
        match self {
            Delimiter::Comma => 44,
            Delimiter::Tab => 9,
            Delimiter::Colon => 58,
            Delimiter::Pipe => 124,
            Delimiter::Semicolon => 59,
        }
    }
}

} // verus!
