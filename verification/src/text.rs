//! How values are shown to a reader.
//!
//! A value is shown as a sequence of pieces. A piece is finished text, or a
//! float that is still to be written out: only floating-point code knows
//! the digits of a float, and this library has none.

use vstd::prelude::*;
use vstd::string::*;
use crate::fields::Fields;
use crate::heap::UnsizedValue;
use crate::value::SizedValue;

verus! {

/// One piece of what is shown.
#[derive(Debug, PartialEq, Eq)]
pub enum Piece {
    /// Finished text.
    Text(String),
    /// The float with this IEEE 754 bit pattern.
    Float(u64),
}

/// A piece as contracts see it.
pub enum PieceView {
    Text(Seq<char>),
    Float(u64),
}

impl View for Piece {
    type V = PieceView;

    open spec fn view(&self) -> PieceView {
        match self {
            Piece::Text(text) => PieceView::Text(text@),
            Piece::Float(bits) => PieceView::Float(*bits),
        }
    }
}

/// A sequence of pieces as contracts see it.
pub open spec fn pieces_view(pieces: Seq<Piece>) -> Seq<PieceView> {
    Seq::new(pieces.len(), |i: int| pieces[i]@)
}

/// The character of a decimal digit.
pub open spec fn digit(d: int) -> char {
    if d == 0 {
        '0'
    } else if d == 1 {
        '1'
    } else if d == 2 {
        '2'
    } else if d == 3 {
        '3'
    } else if d == 4 {
        '4'
    } else if d == 5 {
        '5'
    } else if d == 6 {
        '6'
    } else if d == 7 {
        '7'
    } else if d == 8 {
        '8'
    } else {
        '9'
    }
}

/// The decimal digits of a natural number, without leading zeros.
pub open spec fn digits(n: int) -> Seq<char>
    decreases n,
{
    if n < 10 {
        seq![digit(n)]
    } else {
        digits(n / 10).push(digit(n % 10))
    }
}

/// The decimal notation of an integer: a minus sign before the digits of a
/// negative one.
pub open spec fn decimal(n: int) -> Seq<char> {
    if n < 0 {
        seq!['-'] + digits(-n)
    } else {
        digits(n)
    }
}

/// How a stack value is shown.
pub open spec fn shown(value: SizedValue) -> PieceView {
    match value {
        SizedValue::Int64(i) => PieceView::Text(decimal(i as int)),
        SizedValue::Float64(bits) => PieceView::Float(bits),
        SizedValue::Bool(flag) => PieceView::Text(
            if flag {
                "true"@
            } else {
                "false"@
            },
        ),
        SizedValue::Address(address) => PieceView::Text(decimal(address as int)),
        SizedValue::NativeCapability(_) => PieceView::Text("<function-ptr>"@),
        SizedValue::Null => PieceView::Text("null"@),
    }
}

/// The elements of a list, shown with `, ` between them.
pub open spec fn joined(items: Seq<SizedValue>) -> Seq<PieceView> {
    Seq::new(
        if items.len() == 0 {
            0
        } else {
            (2 * items.len() - 1) as nat
        },
        |i: int|
            if i % 2 == 0 {
                shown(items[i / 2])
            } else {
                PieceView::Text(", "@)
            },
    )
}

/// The entries of an object, each shown as name, `: ` and value, with `, `
/// between them.
pub open spec fn listed(entries: Seq<(Seq<char>, SizedValue)>) -> Seq<PieceView> {
    Seq::new(
        if entries.len() == 0 {
            0
        } else {
            (4 * entries.len() - 1) as nat
        },
        |i: int|
            if i % 4 == 0 {
                PieceView::Text(entries[i / 4].0)
            } else if i % 4 == 1 {
                PieceView::Text(": "@)
            } else if i % 4 == 2 {
                shown(entries[i / 4].1)
            } else {
                PieceView::Text(", "@)
            },
    )
}

/// How a heap value is shown: a string as its text, a list in square
/// brackets, an object in braces with its entries in the order in which
/// their names came in, a function and a tombstone by a fixed word.
pub open spec fn displayed(value: UnsizedValue) -> Seq<PieceView> {
    match value {
        UnsizedValue::String(text) => seq![PieceView::Text(text@)],
        UnsizedValue::List(items, _) => seq![PieceView::Text("["@)] + joined(items@) + seq![
            PieceView::Text("]"@),
        ],
        UnsizedValue::Object(_) => seq![PieceView::Text("{"@)] + listed(value.order()) + seq![
            PieceView::Text("}"@),
        ],
        UnsizedValue::Function(_) => seq![PieceView::Text("<function>"@)],
        UnsizedValue::Empty => seq![PieceView::Text("<empty>"@)],
    }
}

/// Two values with one view and one order of names are shown alike; a
/// value and its copy are two such values.
pub proof fn law_copies_are_shown_alike(a: UnsizedValue, b: UnsizedValue)
    requires
        a@ == b@,
        a.order() == b.order(),
    ensures
        displayed(a) == displayed(b),
{
}

/// The text of a decimal digit.
fn digit_text(d: u64) -> (text: &'static str)
    requires
        d < 10,
    ensures
        text@ == seq![digit(d as int)],
{
    proof {
        reveal_strlit("0");
        reveal_strlit("1");
        reveal_strlit("2");
        reveal_strlit("3");
        reveal_strlit("4");
        reveal_strlit("5");
        reveal_strlit("6");
        reveal_strlit("7");
        reveal_strlit("8");
        reveal_strlit("9");
    }
    let text = if d == 0 {
        "0"
    } else if d == 1 {
        "1"
    } else if d == 2 {
        "2"
    } else if d == 3 {
        "3"
    } else if d == 4 {
        "4"
    } else if d == 5 {
        "5"
    } else if d == 6 {
        "6"
    } else if d == 7 {
        "7"
    } else if d == 8 {
        "8"
    } else {
        "9"
    };
    assert(text@ =~= seq![digit(d as int)]);
    text
}

/// Appends the decimal digits of `n`.
fn append_digits(text: &mut String, n: u64)
    ensures
        final(text)@ == old(text)@ + digits(n as int),
    decreases n,
{
    if n >= 10 {
        append_digits(text, n / 10);
    }
    text.append(digit_text(n % 10));
    assert(text@ =~= old(text)@ + digits(n as int));
}

/// The decimal notation of a signed integer.
pub fn decimal_text(value: i64) -> (text: String)
    ensures
        text@ == decimal(value as int),
{
    let mut text = String::new();
    if value < 0 {
        proof {
            reveal_strlit("-");
        }
        text.append("-");
        let magnitude: u64 = if value == i64::MIN {
            0x8000_0000_0000_0000
        } else {
            (-value) as u64
        };
        append_digits(&mut text, magnitude);
        assert(text@ =~= seq!['-'] + digits(-(value as int)));
    } else {
        append_digits(&mut text, value as u64);
        assert(text@ =~= digits(value as int));
    }
    text
}

/// The decimal notation of an address or index.
pub fn index_text(value: usize) -> (text: String)
    ensures
        text@ == decimal(value as int),
{
    let mut text = String::new();
    append_digits(&mut text, value as u64);
    assert(text@ =~= digits(value as int));
    text
}

/// Shows a stack value.
pub fn show(value: &SizedValue) -> (piece: Piece)
    ensures
        piece@ == shown(*value),
{
    match value {
        SizedValue::Int64(i) => Piece::Text(decimal_text(*i)),
        SizedValue::Float64(bits) => Piece::Float(*bits),
        SizedValue::Bool(flag) => if *flag {
            Piece::Text("true".to_string())
        } else {
            Piece::Text("false".to_string())
        },
        SizedValue::Address(address) => Piece::Text(index_text(*address)),
        SizedValue::NativeCapability(_) => Piece::Text("<function-ptr>".to_string()),
        SizedValue::Null => Piece::Text("null".to_string()),
    }
}

/// Appends the elements of a list as [`joined`] has them.
fn join(pieces: &mut Vec<Piece>, items: &Vec<SizedValue>)
    ensures
        pieces_view(final(pieces)@) == pieces_view(old(pieces)@) + joined(items@),
{
    let ghost before = pieces_view(pieces@);
    let mut k: usize = 0;
    assert(pieces_view(pieces@) =~= before + joined(items@.take(0)));
    while k < items.len()
        invariant
            k <= items.len(),
            pieces_view(pieces@) == before + joined(items@.take(k as int)),
        decreases items.len() - k,
    {
        let ghost seen = pieces_view(pieces@);
        let ghost held = pieces@;
        let ghost short = joined(items@.take(k as int));
        let ghost long = joined(items@.take(k + 1));
        if k > 0 {
            pieces.push(Piece::Text(", ".to_string()));
        }
        pieces.push(show(&items[k]));
        proof {
            let now = pieces_view(pieces@);
            assert(short.len() == if k == 0 {
                0
            } else {
                2 * k - 1
            });
            assert(long.len() == 2 * k + 1);
            assert(seen.len() == held.len());
            assert(seen.len() == before.len() + short.len());
            assert(pieces@.len() == held.len() + if k == 0 {
                1int
            } else {
                2int
            });
            assert(now.len() == before.len() + long.len());
            assert forall|j: int| 0 <= j < now.len() implies now[j] == (before + long)[j] by {
                let i = j - before.len();
                if j < seen.len() {
                    assert(now[j] == seen[j]);
                    if i >= 0 {
                        assert(seen[j] == short[i]);
                        assert(i / 2 < k);
                        assert(items@.take(k as int)[i / 2] == items@.take(k + 1)[i / 2]);
                    }
                } else if i == 2 * k {
                    assert(i % 2 == 0 && i / 2 == k);
                } else {
                    assert(i == 2 * k - 1);
                    assert(i % 2 == 1);
                }
            }
            assert(now =~= before + long);
        }
        k = k + 1;
    }
    assert(items@.take(items@.len() as int) =~= items@);
}

/// Appends the entries of an object as [`listed`] has them.
fn list(pieces: &mut Vec<Piece>, fields: &Fields)
    ensures
        pieces_view(final(pieces)@) == pieces_view(old(pieces)@) + listed(fields.entries()),
{
    let ghost before = pieces_view(pieces@);
    let ghost entries = fields.entries();
    let mut k: usize = 0;
    assert(pieces_view(pieces@) =~= before + listed(entries.take(0)));
    while k < fields.len()
        invariant
            k <= entries.len(),
            entries == fields.entries(),
            pieces_view(pieces@) == before + listed(entries.take(k as int)),
        decreases entries.len() - k,
    {
        let ghost seen = pieces_view(pieces@);
        let ghost held = pieces@;
        let ghost short = listed(entries.take(k as int));
        let ghost long = listed(entries.take(k + 1));
        match fields.entry(k) {
            Some((name, value)) => {
                if k > 0 {
                    pieces.push(Piece::Text(", ".to_string()));
                }
                pieces.push(Piece::Text(name.clone()));
                pieces.push(Piece::Text(": ".to_string()));
                pieces.push(show(&value));
                proof {
                    let now = pieces_view(pieces@);
                    assert(short.len() == if k == 0 {
                        0
                    } else {
                        4 * k - 1
                    });
                    assert(long.len() == 4 * k + 3);
                    assert(seen.len() == held.len());
                    assert(seen.len() == before.len() + short.len());
                    assert(pieces@.len() == held.len() + if k == 0 {
                        3int
                    } else {
                        4int
                    });
                    assert(now.len() == before.len() + long.len());
                    assert forall|j: int| 0 <= j < now.len() implies now[j] == (before + long)[j] by {
                        let i = j - before.len();
                        if j < seen.len() {
                            assert(now[j] == seen[j]);
                            if i >= 0 {
                                assert(seen[j] == short[i]);
                                assert(i / 4 < k);
                                assert(entries.take(k as int)[i / 4] == entries.take(k + 1)[i / 4]);
                            }
                        } else if i == 4 * k {
                            assert(i % 4 == 0 && i / 4 == k);
                        } else if i == 4 * k + 1 {
                            assert(i % 4 == 1);
                        } else if i == 4 * k + 2 {
                            assert(i % 4 == 2 && i / 4 == k);
                        } else {
                            assert(i == 4 * k - 1);
                            assert(i % 4 == 3);
                        }
                    }
                    assert(now =~= before + long);
                }
            },
            None => {},
        }
        k = k + 1;
    }
    assert(entries.take(entries.len() as int) =~= entries);
}

/// Shows a heap value.
pub fn display(value: &UnsizedValue) -> (pieces: Vec<Piece>)
    ensures
        pieces_view(pieces@) == displayed(*value),
{
    let mut pieces: Vec<Piece> = Vec::new();
    match value {
        UnsizedValue::String(text) => {
            pieces.push(Piece::Text(text.clone()));
            assert(pieces_view(pieces@) =~= displayed(*value));
        },
        UnsizedValue::List(items, _) => {
            pieces.push(Piece::Text("[".to_string()));
            let ghost open = pieces_view(pieces@);
            join(&mut pieces, items);
            pieces.push(Piece::Text("]".to_string()));
            assert(open =~= seq![PieceView::Text("["@)]);
            assert(pieces_view(pieces@) =~= displayed(*value));
        },
        UnsizedValue::Object(fields) => {
            pieces.push(Piece::Text("{".to_string()));
            let ghost open = pieces_view(pieces@);
            list(&mut pieces, fields);
            pieces.push(Piece::Text("}".to_string()));
            assert(open =~= seq![PieceView::Text("{"@)]);
            assert(pieces_view(pieces@) =~= displayed(*value));
        },
        UnsizedValue::Function(_) => {
            pieces.push(Piece::Text("<function>".to_string()));
            assert(pieces_view(pieces@) =~= displayed(*value));
        },
        UnsizedValue::Empty => {
            pieces.push(Piece::Text("<empty>".to_string()));
            assert(pieces_view(pieces@) =~= displayed(*value));
        },
    }
    pieces
}

} // verus!
