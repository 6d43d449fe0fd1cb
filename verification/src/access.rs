//! Atomic accesses to words of shared memory.

use vstd::prelude::*;

verus! {

/// Number of values of a 32-bit word.
pub const SPAN_32: u64 = 0x1_0000_0000;

/// Number of bits of a word of shared memory.
#[derive(Debug, Clone, Copy, PartialEq, Eq, Structural)]
pub enum Width {
    W32,
    W64,
}

impl Width {
    /// Number of values of a word.
    pub open spec fn span(self) -> int {
        match self {
            Width::W32 => 0x1_0000_0000,
            Width::W64 => 0x1_0000_0000_0000_0000,
        }
    }

    /// The word that an integer becomes: its remainder modulo the span.
    pub open spec fn fit(self, value: int) -> u64 {
        (value % self.span()) as u64
    }

    fn span_exec(self) -> (span: u128)
        ensures
            span == self.span(),
    {
        match self {
            Width::W32 => 0x1_0000_0000,
            Width::W64 => 0x1_0000_0000_0000_0000,
        }
    }

    /// Wraps a sum into a word.
    pub fn wrap(self, value: u128) -> (word: u64)
        ensures
            word == self.fit(value as int),
    {
        (value % self.span_exec()) as u64
    }
}

/// A number that fits in a word is not changed by being wrapped.
pub proof fn lemma_fit_keeps(width: Width, value: int)
    requires
        0 <= value < width.span(),
    ensures
        width.fit(value) == value,
{
    vstd::arithmetic::div_mod::lemma_small_mod(value as nat, width.span() as nat);
}

/// Adding a number to a word and taking it off again, or the other way round,
/// leaves the word as it was, even where the word wraps in between.
pub proof fn law_add_then_subtract(width: Width, word: u64, amount: u64)
    requires
        word < width.span(),
    ensures
        width.fit(width.fit(word + amount) - amount) == word,
        width.fit(width.fit(word - amount) + amount) == word,
{
    let span = width.span();
    let sum = word + amount;
    let difference = word - amount;
    vstd::arithmetic::div_mod::lemma_sub_mod_noop(sum, amount as int, span);
    vstd::arithmetic::div_mod::lemma_sub_mod_noop(sum % span, amount as int, span);
    vstd::arithmetic::div_mod::lemma_mod_twice(sum, span);
    vstd::arithmetic::div_mod::lemma_add_mod_noop(difference, amount as int, span);
    vstd::arithmetic::div_mod::lemma_add_mod_noop(difference % span, amount as int, span);
    vstd::arithmetic::div_mod::lemma_mod_twice(difference, span);
    lemma_fit_keeps(width, word as int);
}

/// A name for one word of shared memory.
pub trait Cell: Sized {
    /// How wide the word is.
    spec fn width(self) -> Width;

    /// Whether the segment has such a word.
    spec fn valid(self) -> bool;
}

/// One atomic access to the word that a cell names. Its reply is the word from
/// before the access.
#[derive(Debug, Clone, Copy, PartialEq, Eq, Structural)]
pub enum Access<C> {
    Load(C),
    Store(C, u64),
    FetchAdd(C, u64),
    FetchSub(C, u64),
    Swap(C, u64),
    /// Writes the second word if the cell holds the first.
    CompareExchange(C, u64, u64),
}

impl<C> Access<C> {
    /// The cell that is accessed.
    pub open spec fn cell(self) -> C {
        match self {
            Access::Load(c) => c,
            Access::Store(c, _) => c,
            Access::FetchAdd(c, _) => c,
            Access::FetchSub(c, _) => c,
            Access::Swap(c, _) => c,
            Access::CompareExchange(c, _, _) => c,
        }
    }

    /// The word that the cell holds after the access, given the one before.
    pub open spec fn outcome(self, width: Width, before: u64) -> u64 {
        match self {
            Access::Load(_) => before,
            Access::Store(_, word) => width.fit(word as int),
            Access::Swap(_, word) => width.fit(word as int),
            Access::FetchAdd(_, word) => width.fit(before + word),
            Access::FetchSub(_, word) => width.fit(before - word),
            Access::CompareExchange(_, expected, new) => if before == width.fit(expected as int) {
                width.fit(new as int)
            } else {
                before
            },
        }
    }

    /// Computes the word that the access leaves behind.
    pub fn result(&self, width: Width, before: u64) -> (after: u64)
        ensures
            after == self.outcome(width, before),
    {
        let span: u128 = width.span_exec();
        match self {
            Access::Load(_) => before,
            Access::Store(_, word) => width.wrap(*word as u128),
            Access::Swap(_, word) => width.wrap(*word as u128),
            Access::FetchAdd(_, word) => width.wrap(before as u128 + *word as u128),
            Access::FetchSub(_, word) => {
                let part: u128 = *word as u128 % span;
                proof {
                    let s = width.span();
                    vstd::arithmetic::div_mod::lemma_fundamental_div_mod(*word as int, s);
                    vstd::arithmetic::div_mod::lemma_mod_multiples_vanish(
                        -1 - (*word as int / s), before + s - part, s,
                    );
                    assert(s * (-1 - (*word as int / s)) + (before + s - part) == before - *word)
                        by (nonlinear_arith)
                        requires
                            *word as int == s * (*word as int / s) + part,
                    ;
                }
                width.wrap(before as u128 + span - part)
            },
            Access::CompareExchange(_, expected, new) => if before == width.wrap(*expected as u128) {
                width.wrap(*new as u128)
            } else {
                before
            },
        }
    }
}

/// Shared memory after an access.
pub open spec fn effect<C: Cell>(memory: Map<C, u64>, access: Access<C>) -> Map<C, u64> {
    memory.insert(
        access.cell(),
        access.outcome(access.cell().width(), memory[access.cell()]),
    )
}

/// Shared memory after a sequence of accesses.
pub open spec fn effects<C: Cell>(memory: Map<C, u64>, accesses: Seq<Access<C>>) -> Map<C, u64>
    decreases accesses.len(),
{
    if accesses.len() == 0 {
        memory
    } else {
        effect(effects(memory, accesses.drop_last()), accesses.last())
    }
}

/// Of two processes that try to replace the same word, at most one succeeds:
/// once one has, the other finds a different word and changes nothing.
pub proof fn law_one_winner<C: Cell>(
    memory: Map<C, u64>,
    cell: C,
    expected: u64,
    first: u64,
    second: u64,
)
    requires
        memory.dom().contains(cell),
        expected < cell.width().span(),
        first < cell.width().span(),
        first != expected,
        memory[cell] == expected,
    ensures
        ({
            let won = effect(memory, Access::CompareExchange(cell, expected, first));
            &&& won[cell] == first
            &&& won[cell] != expected
            &&& effect(won, Access::CompareExchange(cell, expected, second)) == won
        }),
{
    lemma_fit_keeps(cell.width(), expected as int);
    lemma_fit_keeps(cell.width(), first as int);
    let won = effect(memory, Access::CompareExchange(cell, expected, first));
    assert(effect(won, Access::CompareExchange(cell, expected, second)) =~= won);
}

/// What a machine asks of the program that runs it.
#[derive(Debug, Clone, Copy, PartialEq, Eq, Structural)]
pub enum Step<A, R> {
    /// Perform the action and report the reply.
    Do(A),
    /// The operation is over.
    Done(R),
    /// A counter would leave its range: the operation cannot be completed.
    Overflow,
}

/// An access changes no word but the one that it names.
pub proof fn law_access_keeps_other_words<C: Cell>(memory: Map<C, u64>, access: Access<C>, other: C)
    requires
        other != access.cell(),
    ensures
        effect(memory, access)[other] == memory[other],
        memory.dom().contains(other) ==> effect(memory, access).dom().contains(other),
{
}

/// What accesses make of a 64-bit word: sums and differences wrap.
pub proof fn law_wide_word_accesses<C: Cell>(
    memory: Map<C, u64>,
    cell: C,
    word: u64,
    new: u64,
)
    requires
        cell.width() is W64,
    ensures
        effect(memory, Access::Load(cell))[cell] == memory[cell],
        effect(memory, Access::Store(cell, word))[cell] == word,
        effect(memory, Access::Swap(cell, word))[cell] == word,
        effect(memory, Access::FetchAdd(cell, word))[cell] == if memory[cell] + word
            <= 0xFFFF_FFFF_FFFF_FFFF {
            memory[cell] + word
        } else {
            memory[cell] + word - 0x1_0000_0000_0000_0000
        },
        effect(memory, Access::FetchSub(cell, word))[cell] == if memory[cell] >= word {
            memory[cell] - word
        } else {
            memory[cell] - word + 0x1_0000_0000_0000_0000
        },
        memory[cell] == word ==> effect(memory, Access::CompareExchange(cell, word, new))[cell]
            == new,
        memory[cell] != word ==> effect(memory, Access::CompareExchange(cell, word, new))[cell]
            == memory[cell],
{
}

/// What accesses make of a 32-bit word: sums and differences wrap.
pub proof fn law_narrow_word_accesses<C: Cell>(
    memory: Map<C, u64>,
    cell: C,
    word: u64,
    new: u64,
)
    requires
        cell.width() is W32,
        memory[cell] < 0x1_0000_0000,
        word < 0x1_0000_0000,
        new < 0x1_0000_0000,
    ensures
        effect(memory, Access::Load(cell))[cell] == memory[cell],
        effect(memory, Access::Store(cell, word))[cell] == word,
        effect(memory, Access::Swap(cell, word))[cell] == word,
        effect(memory, Access::FetchAdd(cell, word))[cell] == if memory[cell] + word
            <= 0xFFFF_FFFF {
            memory[cell] + word
        } else {
            memory[cell] + word - 0x1_0000_0000
        },
        effect(memory, Access::FetchSub(cell, word))[cell] == if memory[cell] >= word {
            memory[cell] - word
        } else {
            memory[cell] - word + 0x1_0000_0000
        },
        memory[cell] == word ==> effect(memory, Access::CompareExchange(cell, word, new))[cell]
            == new,
        memory[cell] != word ==> effect(memory, Access::CompareExchange(cell, word, new))[cell]
            == memory[cell],
{
}

/// Wrapping gives a number below the span that differs from the given one by whole
/// spans.
pub proof fn law_wrapped_number_fits(width: Width, value: int)
    ensures
        width is W32 ==> width.fit(value) < 0x1_0000_0000 && (value - width.fit(value))
            % 0x1_0000_0000 == 0,
        width is W64 ==> (value - width.fit(value)) % 0x1_0000_0000_0000_0000 == 0,
{
}

/// A sequence of accesses takes place one after the other.
pub proof fn law_accesses_follow_one_another<C: Cell>(
    memory: Map<C, u64>,
    first: Access<C>,
    second: Access<C>,
)
    ensures
        effects(memory, seq![first]) == effect(memory, first),
        effects(memory, seq![first, second]) == effect(effect(memory, first), second),
{
    reveal_with_fuel(effects, 3);
    assert(seq![first].drop_last() =~= Seq::<Access<C>>::empty());
    assert(seq![first, second].drop_last() =~= seq![first]);
}

} // verus!
