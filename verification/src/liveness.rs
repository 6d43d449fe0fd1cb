//! Which processes are alive.

use vstd::prelude::*;

use crate::config::characters;

verus! {

/// Whether `at` is where a character stands last in a text.
pub open spec fn last_at(text: Seq<char>, c: char, at: int) -> bool {
    &&& 0 <= at < text.len()
    &&& text[at] == c
    &&& forall|j: int| at < j < text.len() ==> text[j] != c
}

/// Whether a status line reports a process that has ended: behind the last
/// closing parenthesis stand one ASCII character and a state letter that says
/// zombie or dead.
pub open spec fn reports_ended(stat: Seq<char>) -> bool {
    exists|at: int|
        #![trigger last_at(stat, ')', at)]
        last_at(stat, ')', at) && at + 2 < stat.len() && (stat[at + 1] as u32) < 128 && (stat[at + 2]
            == 'Z' || stat[at + 2] == 'X' || stat[at + 2] == 'x')
}

/// Whether a process is alive, from the text of its `/proc/<pid>/stat`, or
/// `None` where that file could not be read. A line that cannot be made sense of
/// counts as alive.
pub fn proc_alive(stat: Option<&str>) -> (alive: bool)
    ensures
        alive == (stat is Some && !reports_ended(stat->0@)),
{
    match stat {
        None => false,
        Some(text) => {
            let chars = characters(text);
            let mut at: usize = chars.len();
            while at > 0
                invariant
                    at <= chars.len(),
                    chars@ == text@,
                    stat == Some(text),
                    forall|j: int| at <= j < chars.len() ==> chars@[j] != ')',
                decreases at,
            {
                at = at - 1;
                if chars[at] == ')' {
                    assert(last_at(text@, ')', at as int));
                    assert forall|other: int| last_at(text@, ')', other) implies other == at by {}
                    if chars.len() - at > 2 && (chars[at + 1] as u32) < 128 {
                        let state = chars[at + 2];
                        return state != 'Z' && state != 'X' && state != 'x';
                    }
                    return true;
                }
            }
            true
        },
    }
}

/// The processes that are alive, as far as a caller has found out.
#[derive(Debug, Clone)]
pub struct ProcessTable {
    pub live: Vec<i32>,
}

impl View for ProcessTable {
    type V = Set<i32>;

    open spec fn view(&self) -> Set<i32> {
        Set::new(|pid: i32| self.live@.contains(pid))
    }
}

impl ProcessTable {
    /// Looks a process up.
    pub fn is_alive(&self, pid: i32) -> (found: bool)
        ensures
            found == self@.contains(pid),
    {
        let mut i: usize = 0;
        while i < self.live.len()
            invariant
                i <= self.live.len(),
                forall|j: int| 0 <= j < i ==> self.live@[j] != pid,
            decreases self.live.len() - i,
        {
            if self.live[i] == pid {
                return true;
            }
            i = i + 1;
        }
        false
    }
}

/// A status line without a closing parenthesis reports nothing. Otherwise the last
/// one counts: what stands before it, parentheses or not, makes no difference, and
/// the process has ended where the second character behind it is one of `Z`, `X`
/// and `x` and the first is an ASCII character.
pub proof fn law_state_stands_behind_last_parenthesis(name: Seq<char>, rest: Seq<char>)
    requires
        forall|i: int| 0 <= i < rest.len() ==> #[trigger] rest[i] != ')',
    ensures
        !reports_ended(rest),
        reports_ended(name.push(')') + rest) == (rest.len() >= 2 && (rest[0] as u32) < 128 && (rest[1]
            == 'Z' || rest[1] == 'X' || rest[1] == 'x')),
{
    let line = name.push(')') + rest;
    let at = name.len() as int;
    assert(line[at] == ')');
    assert forall|j: int| at < j < line.len() implies line[j] != ')' by {
        assert(line[j] == rest[j - at - 1]);
    }
    assert(last_at(line, ')', at));
    assert forall|other: int| last_at(line, ')', other) implies other == at by {}
    if rest.len() >= 2 {
        assert(line[at + 1] == rest[0]);
        assert(line[at + 2] == rest[1]);
    }
}

/// Exactly the processes that are listed are alive.
pub proof fn law_listed_processes_are_alive(table: ProcessTable, pid: i32)
    ensures
        table@.contains(pid) <==> exists|i: int| 0 <= i < table.live@.len() && table.live@[i] == pid,
{
}

} // verus!
