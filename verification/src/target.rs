//! The capability a target type needs: parsing a value out of one line of
//! trimmed text, together with that capability for the built-in targets.

use vstd::prelude::*;
use vstd::string::StrSliceExecFns;

use crate::numbers::int_shape;
use crate::numbers::int_text_value;
use crate::numbers::is_negative;
use crate::numbers::parse_int_text;

verus! {

/// A type that can be read from the text of one trimmed input line.
///
/// `text_valid` is the type's parse grammar: exactly the lines it accepts.
/// `text_value` is the value a valid line denotes, spoken of through the
/// type's deep view. `parse_text` decides the grammar and builds the value.
pub trait TextParsable: DeepView + Sized {
    /// The lines of text that parse into a value of this type.
    spec fn text_valid(s: Seq<char>) -> bool;

    /// The value a valid line denotes.
    spec fn text_value(s: Seq<char>) -> Self::V
        recommends
            Self::text_valid(s),
    ;

    /// Parses `s`, accepting exactly the lines of `text_valid`.
    fn parse_text(s: &str) -> (r: Option<Self>)
        ensures
            r is Some <==> Self::text_valid(s@),
            r matches Some(v) ==> v.deep_view() == Self::text_value(s@),
    ;
}

impl TextParsable for String {
    /// A text target accepts every line.
    open spec fn text_valid(s: Seq<char>) -> bool {
        true
    }

    open spec fn text_value(s: Seq<char>) -> Seq<char> {
        s
    }

    fn parse_text(s: &str) -> (r: Option<String>) {
        Some(s.to_owned())
    }
}

/// The one line of text that denotes the boolean `true`.
pub open spec fn true_text() -> Seq<char> {
    seq!['t', 'r', 'u', 'e']
}

/// The one line of text that denotes the boolean `false`.
pub open spec fn false_text() -> Seq<char> {
    seq!['f', 'a', 'l', 's', 'e']
}

impl TextParsable for bool {
    /// A boolean accepts exactly the lines `true` and `false`.
    open spec fn text_valid(s: Seq<char>) -> bool {
        s == true_text() || s == false_text()
    }

    open spec fn text_value(s: Seq<char>) -> bool {
        s == true_text()
    }

    fn parse_text(s: &str) -> (r: Option<bool>) {
        let n = s.unicode_len();
        if n == 4 {
            if s.get_char(0) == 't' && s.get_char(1) == 'r' && s.get_char(2) == 'u' && s.get_char(3)
                == 'e' {
                proof {
                    assert(s@ =~= true_text());
                }
                Some(true)
            } else {
                proof {
                    if s@ == true_text() {
                        assert(s@[0] == 't' && s@[1] == 'r' && s@[2] == 'u' && s@[3] == 'e');
                    }
                }
                None
            }
        } else if n == 5 {
            if s.get_char(0) == 'f' && s.get_char(1) == 'a' && s.get_char(2) == 'l' && s.get_char(3)
                == 's' && s.get_char(4) == 'e' {
                proof {
                    assert(s@ =~= false_text());
                }
                Some(false)
            } else {
                proof {
                    if s@ == false_text() {
                        assert(s@[0] == 'f' && s@[1] == 'a' && s@[2] == 'l' && s@[3] == 's'
                            && s@[4] == 'e');
                    }
                }
                None
            }
        } else {
            None
        }
    }
}

impl TextParsable for u64 {
    /// An unsigned target accepts an optional `+`, then digits, denoting a
    /// number within the type's range; a `-` sign is rejected.
    open spec fn text_valid(s: Seq<char>) -> bool {
        int_shape(s) && !is_negative(s) && int_text_value(s) <= u64::MAX
    }

    open spec fn text_value(s: Seq<char>) -> u64 {
        int_text_value(s) as u64
    }

    fn parse_text(s: &str) -> (r: Option<u64>) {
        match parse_int_text(s) {
            Some((neg, v)) => if neg {
                None
            } else {
                Some(v)
            },
            None => None,
        }
    }
}

impl TextParsable for u32 {
    /// An unsigned target accepts an optional `+`, then digits, denoting a
    /// number within the type's range; a `-` sign is rejected.
    open spec fn text_valid(s: Seq<char>) -> bool {
        int_shape(s) && !is_negative(s) && int_text_value(s) <= u32::MAX
    }

    open spec fn text_value(s: Seq<char>) -> u32 {
        int_text_value(s) as u32
    }

    fn parse_text(s: &str) -> (r: Option<u32>) {
        match parse_int_text(s) {
            Some((neg, v)) => if neg || v > 0xFFFF_FFFF {
                None
            } else {
                Some(v as u32)
            },
            None => None,
        }
    }
}

impl TextParsable for i64 {
    /// A signed target accepts an optional sign, then digits, denoting a
    /// number within the type's range.
    open spec fn text_valid(s: Seq<char>) -> bool {
        int_shape(s) && i64::MIN <= int_text_value(s) <= i64::MAX
    }

    open spec fn text_value(s: Seq<char>) -> i64 {
        int_text_value(s) as i64
    }

    fn parse_text(s: &str) -> (r: Option<i64>) {
        match parse_int_text(s) {
            Some((neg, v)) => {
                if !neg {
                    if v <= 0x7FFF_FFFF_FFFF_FFFF {
                        Some(v as i64)
                    } else {
                        None
                    }
                } else {
                    if v <= 0x7FFF_FFFF_FFFF_FFFF {
                        Some(-(v as i64))
                    } else if v == 0x8000_0000_0000_0000 {
                        Some(i64::MIN)
                    } else {
                        None
                    }
                }
            },
            None => None,
        }
    }
}

impl TextParsable for i32 {
    /// A signed target accepts an optional sign, then digits, denoting a
    /// number within the type's range.
    open spec fn text_valid(s: Seq<char>) -> bool {
        int_shape(s) && i32::MIN <= int_text_value(s) <= i32::MAX
    }

    open spec fn text_value(s: Seq<char>) -> i32 {
        int_text_value(s) as i32
    }

    fn parse_text(s: &str) -> (r: Option<i32>) {
        match parse_int_text(s) {
            Some((neg, v)) => {
                if !neg {
                    if v <= 0x7FFF_FFFF {
                        Some(v as i32)
                    } else {
                        None
                    }
                } else {
                    if v <= 0x7FFF_FFFF {
                        Some(-(v as i32))
                    } else if v == 0x8000_0000 {
                        Some(i32::MIN)
                    } else {
                        None
                    }
                }
            },
            None => None,
        }
    }
}

/// Law: a text target accepts every line. Parsing into `String` never fails,
/// whatever the line holds, so a prompted read into a text target fails only
/// when the stream itself does.
pub proof fn lemma_text_target_accepts_all(s: Seq<char>)
    ensures
        <String as TextParsable>::text_valid(s),
{
}

} // verus!
