//! The board's coordinate system.
//!
//! A `Coordinate` is one of exactly 64 values, decomposing losslessly into a
//! file and a rank, each in `[0, 8)`. The canonical enumeration order is by
//! index `file * 8 + rank`, and each value has a two-character algebraic
//! name such as `A1` or `H8`. The mapping value <-> (file, rank) <-> text is
//! a total bijection, stated by the contracts below.

use vstd::prelude::*;
use vstd::string::*;

verus! {

/// One of the 64 addressable board squares.
///
/// The view of a coordinate is its index in the canonical enumeration
/// order, an integer in `[0, 64)`.
#[derive(Clone, Copy, Debug, PartialEq, Eq, Structural)]
pub struct Coordinate {
    idx: u8,
}

impl View for Coordinate {
    type V = int;

    closed spec fn view(&self) -> int {
        self.idx as int
    }
}

/// The file letter of the square with the given enumeration index.
pub open spec fn file_char_of(i: int) -> char {
    let file = i / 8;
    if file == 0 {
        'A'
    } else if file == 1 {
        'B'
    } else if file == 2 {
        'C'
    } else if file == 3 {
        'D'
    } else if file == 4 {
        'E'
    } else if file == 5 {
        'F'
    } else if file == 6 {
        'G'
    } else {
        'H'
    }
}

/// The rank digit of the square with the given enumeration index.
pub open spec fn rank_char_of(i: int) -> char {
    let rank = i % 8;
    if rank == 0 {
        '1'
    } else if rank == 1 {
        '2'
    } else if rank == 2 {
        '3'
    } else if rank == 3 {
        '4'
    } else if rank == 4 {
        '5'
    } else if rank == 5 {
        '6'
    } else if rank == 6 {
        '7'
    } else {
        '8'
    }
}

/// The algebraic name of the square with the given enumeration index.
pub open spec fn coord_name(i: int) -> Seq<char> {
    seq![file_char_of(i), rank_char_of(i)]
}

impl Coordinate {
    #[verifier::type_invariant]
    spec fn inv(self) -> bool {
        self.idx < 64
    }

    /// Builds the coordinate with the given enumeration index.
    pub fn from_index(index: u8) -> (r: Coordinate)
        requires
            index < 64,
        ensures
            r@ == index as int,
    {
        Coordinate { idx: index }
    }

    /// The coordinate's position in the canonical enumeration order.
    pub fn index(&self) -> (r: u8)
        ensures
            r as int == self@,
            r < 64,
    {
        proof {
            use_type_invariant(self);
        }
        self.idx
    }

    /// Builds a coordinate from a file and a rank, rejecting values
    /// outside `[0, 8)`.
    pub fn from_file_rank(file: u8, rank: u8) -> (r: Option<Coordinate>)
        ensures
            file < 8 && rank < 8 ==> (r matches Some(c) && c@ == file as int * 8 + rank as int),
            !(file < 8 && rank < 8) ==> r is None,
    {
        if file < 8 && rank < 8 {
            Some(Coordinate { idx: file * 8 + rank })
        } else {
            None
        }
    }

    /// The coordinate's file, in `[0, 8)`.
    pub fn file(&self) -> (r: u8)
        ensures
            r as int == self@ / 8,
            r < 8,
    {
        proof {
            use_type_invariant(self);
        }
        self.idx / 8
    }

    /// The coordinate's rank, in `[0, 8)`.
    pub fn rank(&self) -> (r: u8)
        ensures
            r as int == self@ % 8,
            r < 8,
    {
        proof {
            use_type_invariant(self);
        }
        self.idx % 8
    }

    /// The full sequence of all 64 coordinates, in canonical order.
    pub fn all() -> (r: Vec<Coordinate>)
        ensures
            r@.len() == 64,
            forall|i: int| 0 <= i < 64 ==> #[trigger] r@[i]@ == i,
    {
        let mut v: Vec<Coordinate> = Vec::new();
        let mut i: u8 = 0;
        while i < 64
            invariant
                i <= 64,
                v@.len() == i as int,
                forall|j: int| 0 <= j < i as int ==> #[trigger] v@[j]@ == j,
            decreases 64 - i as int,
        {
            v.push(Coordinate { idx: i });
            i = i + 1;
        }
        v
    }

    /// The two-character algebraic name of the square, e.g. `A1`.
    pub fn name(&self) -> (r: String)
        ensures
            r@ == coord_name(self@),
    {
        let f: &str = match self.file() {
            0 => "A",
            1 => "B",
            2 => "C",
            3 => "D",
            4 => "E",
            5 => "F",
            6 => "G",
            _ => "H",
        };
        let k: &str = match self.rank() {
            0 => "1",
            1 => "2",
            2 => "3",
            3 => "4",
            4 => "5",
            5 => "6",
            6 => "7",
            _ => "8",
        };
        proof {
            reveal_strlit("A");
            reveal_strlit("B");
            reveal_strlit("C");
            reveal_strlit("D");
            reveal_strlit("E");
            reveal_strlit("F");
            reveal_strlit("G");
            reveal_strlit("H");
            reveal_strlit("1");
            reveal_strlit("2");
            reveal_strlit("3");
            reveal_strlit("4");
            reveal_strlit("5");
            reveal_strlit("6");
            reveal_strlit("7");
            reveal_strlit("8");
        }
        let mut r = String::new();
        r.append(f);
        r.append(k);
        proof {
            assert(r@ =~= coord_name(self@));
        }
        r
    }

    /// Parses an algebraic name back into a coordinate. Returns `None`
    /// exactly when the text is the name of no square.
    pub fn parse(s: &str) -> (r: Option<Coordinate>)
        ensures
            match r {
                Some(c) => 0 <= c@ < 64 && s@ == coord_name(c@),
                None => forall|i: int| 0 <= i < 64 ==> s@ != coord_name(i),
            },
    {
        if !s.is_ascii() {
            proof {
                lemma_coord_names_ascii(s@);
            }
            return None;
        }
        proof {
            broadcast use vstd::slice::group_slice_axioms;

            vstd::string::is_ascii_spec_bytes(s);
        }
        let b = s.as_bytes();
        if b.len() != 2 {
            assert(s@.len() != 2);
            assert(forall|i: int| 0 <= i < 64 ==> s@ != coord_name(i)) by {
                assert(forall|i: int| (#[trigger] coord_name(i)).len() == 2);
            }
            return None;
        }
        assert(s@.len() == 2);
        let c0 = s.get_char(0);
        let c1 = s.get_char(1);
        let file: u8 = match c0 {
            'A' => 0,
            'B' => 1,
            'C' => 2,
            'D' => 3,
            'E' => 4,
            'F' => 5,
            'G' => 6,
            'H' => 7,
            _ => {
                proof {
                    lemma_no_name_with_file_char(s@);
                }
                return None;
            },
        };
        let rank: u8 = match c1 {
            '1' => 0,
            '2' => 1,
            '3' => 2,
            '4' => 3,
            '5' => 4,
            '6' => 5,
            '7' => 6,
            '8' => 7,
            _ => {
                proof {
                    lemma_no_name_with_rank_char(s@);
                }
                return None;
            },
        };
        let c = Coordinate { idx: file * 8 + rank };
        proof {
            assert(s@ =~= coord_name(c@));
        }
        Some(c)
    }
}

/// A sequence with a non-ASCII character is the name of no square.
proof fn lemma_coord_names_ascii(s: Seq<char>)
    requires
        !vstd::utf8::is_ascii_chars(s),
    ensures
        forall|i: int| 0 <= i < 64 ==> s != coord_name(i),
{
    assert forall|i: int| 0 <= i < 64 implies s != coord_name(i) by {
        assert(vstd::utf8::is_ascii_chars(coord_name(i))) by {
            assert(coord_name(i)[0] == file_char_of(i));
            assert(coord_name(i)[1] == rank_char_of(i));
        }
    }
}

/// A two-character sequence whose first character is no file letter is the
/// name of no square.
proof fn lemma_no_name_with_file_char(s: Seq<char>)
    requires
        s.len() == 2,
        s[0] != 'A' && s[0] != 'B' && s[0] != 'C' && s[0] != 'D' && s[0] != 'E' && s[0] != 'F'
            && s[0] != 'G' && s[0] != 'H',
    ensures
        forall|i: int| 0 <= i < 64 ==> s != coord_name(i),
{
    assert forall|i: int| 0 <= i < 64 implies s != coord_name(i) by {
        if s == coord_name(i) {
            assert(s[0] == file_char_of(i));
        }
    }
}

/// A two-character sequence whose second character is no rank digit is the
/// name of no square.
proof fn lemma_no_name_with_rank_char(s: Seq<char>)
    requires
        s.len() == 2,
        s[1] != '1' && s[1] != '2' && s[1] != '3' && s[1] != '4' && s[1] != '5' && s[1] != '6'
            && s[1] != '7' && s[1] != '8',
    ensures
        forall|i: int| 0 <= i < 64 ==> s != coord_name(i),
{
    assert forall|i: int| 0 <= i < 64 implies s != coord_name(i) by {
        if s == coord_name(i) {
            assert(s[1] == rank_char_of(i));
        }
    }
}

/// Distinct squares have distinct algebraic names: together with
/// `Coordinate::name` and `Coordinate::parse` this makes the mapping
/// between coordinates and their names a bijection.
pub proof fn lemma_coord_name_injective(i: int, j: int)
    requires
        0 <= i < 64,
        0 <= j < 64,
        coord_name(i) == coord_name(j),
    ensures
        i == j,
{
    assert(coord_name(i)[0] == file_char_of(i));
    assert(coord_name(i)[1] == rank_char_of(i));
    assert(file_char_of(i) == file_char_of(j));
    assert(rank_char_of(i) == rank_char_of(j));
    assert(i / 8 == j / 8);
    assert(i % 8 == j % 8);
    assert(i == (i / 8) * 8 + i % 8) by (nonlinear_arith);
    assert(j == (j / 8) * 8 + j % 8) by (nonlinear_arith);
}

} // verus!
