//! The markup characters that stand for pauses, and what each one means.

use vstd::prelude::*;

verus! {

/// One markup definition: the character that triggers a pause, the beat
/// unit (`signature`) and the note length (`length`) of that pause.
#[derive(Clone, Copy, Debug, PartialEq, Eq, Structural)]
pub struct Breakpoint {
    pub character: char,
    pub signature: u32,
    pub length: u32,
}

impl Breakpoint {
    /// A breakpoint with these three values.
    pub fn new(character: char, signature: u32, length: u32) -> (breakpoint: Self)
        ensures
            breakpoint == (Breakpoint { character, signature, length }),
    {
        Breakpoint { character, signature, length }
    }
}

/// The fixed table of breakpoints, in lookup order.
pub open spec fn breakpoint_table() -> Seq<Breakpoint> {
    seq![
        Breakpoint { character: '#', signature: 4, length: 1 },
        Breakpoint { character: '$', signature: 4, length: 2 },
        Breakpoint { character: '%', signature: 4, length: 4 },
        Breakpoint { character: '&', signature: 4, length: 8 },
        Breakpoint { character: '?', signature: 4, length: 16 },
    ]
}

/// The first entry of `table` whose character is `c`, if there is one.
pub open spec fn lookup(table: Seq<Breakpoint>, c: char) -> Option<Breakpoint>
    decreases table.len(),
{
    if table.len() == 0 {
        None
    } else if table[0].character == c {
        Some(table[0])
    } else {
        lookup(table.drop_first(), c)
    }
}

/// The breakpoint that the markup character `c` stands for, if `c` is one.
pub open spec fn breakpoint_for(c: char) -> Option<Breakpoint> {
    lookup(breakpoint_table(), c)
}

/// The table as a value.
pub fn breakpoints() -> (table: [Breakpoint; 5])
    ensures
        table@ == breakpoint_table(),
{
    [
        Breakpoint::new('#', 4, 1),
        Breakpoint::new('$', 4, 2),
        Breakpoint::new('%', 4, 4),
        Breakpoint::new('&', 4, 8),
        Breakpoint::new('?', 4, 16),
    ]
}

/// Looks `c` up in the table by exact character equality.
pub fn find_breakpoint(c: char) -> (found: Option<Breakpoint>)
    ensures
        found == breakpoint_for(c),
{
    let table = breakpoints();
    let mut i: usize = 0;
    assert(breakpoint_table().skip(0) =~= breakpoint_table());
    while i < 5
        invariant
            i <= 5,
            table@ == breakpoint_table(),
            breakpoint_for(c) == lookup(breakpoint_table().skip(i as int), c),
        decreases 5 - i,
    {
        if table[i].character == c {
            return Some(table[i]);
        }
        assert(breakpoint_table().skip(i as int).drop_first() =~= breakpoint_table().skip(i + 1));
        i += 1;
    }
    None
}

/// The table written out: what each character stands for.
pub proof fn lemma_breakpoint_for(c: char)
    ensures
        breakpoint_for(c) == if c == '#' {
            Some(Breakpoint { character: '#', signature: 4, length: 1 })
        } else if c == '$' {
            Some(Breakpoint { character: '$', signature: 4, length: 2 })
        } else if c == '%' {
            Some(Breakpoint { character: '%', signature: 4, length: 4 })
        } else if c == '&' {
            Some(Breakpoint { character: '&', signature: 4, length: 8 })
        } else if c == '?' {
            Some(Breakpoint { character: '?', signature: 4, length: 16 })
        } else {
            None
        },
{
    reveal_with_fuel(lookup, 6);
}

/// No two entries of the table share a character, and every entry has the
/// signature 4.
pub proof fn lemma_table_entries_distinct()
    ensures
        breakpoint_table().len() == 5,
        forall|i: int, j: int|
            0 <= i < j < breakpoint_table().len() ==> breakpoint_table()[i].character
                != breakpoint_table()[j].character,
        forall|i: int| 0 <= i < breakpoint_table().len() ==> breakpoint_table()[i].signature == 4,
{
}

} // verus!
