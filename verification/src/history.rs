//! Command history: parsing shell history files into frequency tables,
//! and the in-memory suggestion store that ranks, records and deletes
//! commands.
use vstd::prelude::*;
use crate::clock::now_unix;
use crate::text::{
    chars_eq, chars_of, contains_chars, contains_seq, string_of, char_pos, ends_with_char, find_char, lines, slice_chars, split_lines, starts_with,
    str_eq, trim, trim_chars, trim_str, is_first_pos, lemma_char_pos_is, strip_cr,
};

verus! {

/// How often a command was run, and when last (unix seconds).
#[derive(Clone, Copy, Debug, PartialEq, Eq, Structural)]
pub struct HistoryEntry {
    pub frequency: usize,
    pub last_used_at: i64,
}

/// A table from commands to their statistics; each command occurs once.
pub struct HistoryTable {
    commands: Vec<Vec<char>>,
    stats: Vec<HistoryEntry>,
    map: Ghost<Map<Seq<char>, HistoryEntry>>,
}

impl View for HistoryTable {
    type V = Map<Seq<char>, HistoryEntry>;

    closed spec fn view(&self) -> Map<Seq<char>, HistoryEntry> {
        self.map@
    }
}

impl HistoryTable {
    /// The command of row `i`.
    pub closed spec fn cmd_at(&self, i: int) -> Seq<char> {
        self.commands@[i]@
    }

    /// The number of rows.
    pub closed spec fn row_count(&self) -> nat {
        self.commands@.len()
    }

    /// The rows and the map agree, and no command occurs twice.
    pub closed spec fn wf(&self) -> bool {
        &&& self.commands@.len() == self.stats@.len()
        &&& forall|i: int|
            0 <= i < self.commands@.len() ==> #[trigger] self.map@.contains_key(self.cmd_at(i))
                && self.map@[self.cmd_at(i)] == self.stats@[i]
        &&& forall|k: Seq<char>|
            #[trigger] self.map@.contains_key(k) ==> exists|i: int|
                0 <= i < self.commands@.len() && self.cmd_at(i) == k
        &&& forall|i: int, j: int|
            0 <= i < j < self.commands@.len() ==> self.cmd_at(i) != self.cmd_at(j)
    }

    /// An empty table.
    pub fn new() -> (t: HistoryTable)
        ensures
            t.wf(),
            t@ == Map::<Seq<char>, HistoryEntry>::empty(),
    {
        HistoryTable { commands: Vec::new(), stats: Vec::new(), map: Ghost(Map::empty()) }
    }

    /// The row that holds `cmd`, if any.
    fn find(&self, cmd: &[char]) -> (r: Option<usize>)
        requires
            self.wf(),
        ensures
            r matches Some(i) ==> i < self.commands@.len() && self.cmd_at(i as int) == cmd@,
            r is None ==> !self@.contains_key(cmd@),
    {
        let mut i: usize = 0;
        while i < self.commands.len()
            invariant
                self.wf(),
                i <= self.commands@.len(),
                forall|j: int| 0 <= j < i ==> self.cmd_at(j) != cmd@,
            decreases self.commands@.len() - i,
        {
            if chars_eq(self.commands[i].as_slice(), cmd) {
                return Some(i);
            }
            i = i + 1;
        }
        proof {
            if self@.contains_key(cmd@) {
                let j = choose|j: int| 0 <= j < self.commands@.len() && self.cmd_at(j) == cmd@;
                assert(self.cmd_at(j) != cmd@);
            }
        }
        None
    }

    /// The statistics of `cmd` in row `i` become `e`.
    fn set_at(&mut self, i: usize, e: HistoryEntry)
        requires
            old(self).wf(),
            i < old(self).commands@.len(),
        ensures
            final(self).wf(),
            final(self)@ == old(self)@.insert(old(self).cmd_at(i as int), e),
            final(self).row_count() == old(self).row_count(),
    {
        let ghost k = self.cmd_at(i as int);
        proof {
            assert(self.map@.contains_key(k));
        }
        self.stats.set(i, e);
        self.map = Ghost(self.map@.insert(k, e));
        assert forall|j: int|
            0 <= j < self.commands@.len() implies #[trigger] self.map@.contains_key(self.cmd_at(j))
            && self.map@[self.cmd_at(j)] == self.stats@[j] by {
            if j != i {
                if j < i {
                    assert(old(self).cmd_at(j) != old(self).cmd_at(i as int));
                } else {
                    assert(old(self).cmd_at(i as int) != old(self).cmd_at(j));
                }
                assert(old(self).map@.contains_key(old(self).cmd_at(j)));
            }
        }
        assert forall|a: int, b: int|
            0 <= a < b < self.commands@.len() implies self.cmd_at(a) != self.cmd_at(b) by {
            assert(old(self).cmd_at(a) != old(self).cmd_at(b));
        }
        assert forall|q: Seq<char>| #[trigger] self.map@.contains_key(q) implies exists|j: int|
            0 <= j < self.commands@.len() && self.cmd_at(j) == q by {
            if q == k {
                assert(self.cmd_at(i as int) == q);
            } else {
                assert(old(self).map@.contains_key(q));
                let j = choose|j: int| 0 <= j < old(self).commands@.len() && old(self).cmd_at(j) == q;
                assert(self.cmd_at(j) == q);
            }
        }
    }

    /// Adds `cmd`, which the table does not hold yet, with statistics `e`.
    fn push_new(&mut self, cmd: Vec<char>, e: HistoryEntry)
        requires
            old(self).wf(),
            !old(self)@.contains_key(cmd@),
        ensures
            final(self).wf(),
            final(self)@ == old(self)@.insert(cmd@, e),
            final(self).row_count() == old(self).row_count() + 1,
    {
        let ghost k = cmd@;
        proof {
            assert forall|i: int| 0 <= i < self.commands@.len() implies self.cmd_at(i) != k by {
                assert(self.map@.contains_key(self.cmd_at(i)));
            }
        }
        self.commands.push(cmd);
        self.stats.push(e);
        self.map = Ghost(self.map@.insert(k, e));
        let ghost n = old(self).commands@.len();
        assert(self.cmd_at(n as int) == k);
        assert forall|j: int|
            0 <= j < self.commands@.len() implies #[trigger] self.map@.contains_key(self.cmd_at(j))
            && self.map@[self.cmd_at(j)] == self.stats@[j] by {
            if j < n {
                assert(self.cmd_at(j) == old(self).cmd_at(j));
                assert(old(self).map@.contains_key(old(self).cmd_at(j)));
                assert(old(self).cmd_at(j) != k);
            }
        }
        assert forall|a: int, b: int|
            0 <= a < b < self.commands@.len() implies self.cmd_at(a) != self.cmd_at(b) by {
            assert(self.cmd_at(a) == old(self).cmd_at(a));
            if b < n {
                assert(self.cmd_at(b) == old(self).cmd_at(b));
            } else {
                assert(old(self).cmd_at(a) != k);
            }
        }
        assert forall|q: Seq<char>| #[trigger] self.map@.contains_key(q) implies exists|i: int|
            0 <= i < self.commands@.len() && self.cmd_at(i) == q by {
            if q == k {
                assert(self.cmd_at(self.commands@.len() - 1) == k);
            } else {
                assert(old(self).map@.contains_key(q));
                let j = choose|j: int| 0 <= j < old(self).commands@.len() && old(self).cmd_at(j) == q;
                assert(self.cmd_at(j) == q);
            }
        }
    }

    /// Sets the statistics of `cmd` to `e`, adding `cmd` when the table
    /// does not hold it yet.
    pub fn insert(&mut self, cmd: &str, e: HistoryEntry)
        requires
            old(self).wf(),
        ensures
            final(self).wf(),
            final(self)@ == old(self)@.insert(cmd@, e),
    {
        let c = chars_of(cmd);
        match self.find(c.as_slice()) {
            Some(i) => self.set_at(i, e),
            None => self.push_new(c, e),
        }
    }

    /// Removes `cmd` from the table, if it is there.
    pub fn remove(&mut self, cmd: &[char])
        requires
            old(self).wf(),
        ensures
            final(self).wf(),
            final(self)@ == old(self)@.remove(cmd@),
    {
        match self.find(cmd) {
            None => {
                assert(self.map@.remove(cmd@) =~= self.map@);
            },
            Some(i) => {
                let ghost k = cmd@;
                let ghost oc = self.commands@;
                self.commands.remove(i);
                self.stats.remove(i);
                self.map = Ghost(self.map@.remove(k));
                assert forall|j: int| 0 <= j < self.commands@.len() implies self.cmd_at(j)
                    != k by {
                    if j < i {
                        assert(old(self).cmd_at(j) != old(self).cmd_at(i as int));
                    } else {
                        assert(old(self).cmd_at(i as int) != old(self).cmd_at(j + 1));
                    }
                }
                assert forall|j: int|
                    0 <= j < self.commands@.len() implies #[trigger] self.map@.contains_key(
                    self.cmd_at(j),
                ) && self.map@[self.cmd_at(j)] == self.stats@[j] by {
                    if j < i {
                        assert(old(self).map@.contains_key(old(self).cmd_at(j)));
                    } else {
                        assert(old(self).map@.contains_key(old(self).cmd_at(j + 1)));
                    }
                }
                assert forall|q: Seq<char>| #[trigger] self.map@.contains_key(q) implies exists|
                    j: int,
                | 0 <= j < self.commands@.len() && self.cmd_at(j) == q by {
                    assert(old(self).map@.contains_key(q));
                    let j = choose|j: int|
                        0 <= j < old(self).commands@.len() && old(self).cmd_at(j) == q;
                    if j < i {
                        assert(self.cmd_at(j) == q);
                    } else {
                        assert(j != i);
                        assert(self.cmd_at(j - 1) == q);
                    }
                }
                assert forall|a: int, b: int|
                    0 <= a < b < self.commands@.len() implies self.cmd_at(a) != self.cmd_at(b) by {
                    let a2 = if a < i { a } else { a + 1 };
                    let b2 = if b < i { b } else { b + 1 };
                    assert(old(self).cmd_at(a2) != old(self).cmd_at(b2));
                }
            },
        }
    }

    /// The statistics of `cmd`, if the table holds it.
    pub fn get(&self, cmd: &str) -> (r: Option<HistoryEntry>)
        requires
            self.wf(),
        ensures
            r == (if self@.contains_key(cmd@) {
                Some(self@[cmd@])
            } else {
                None
            }),
    {
        let v = chars_of(cmd);
        match self.find(v.as_slice()) {
            Some(i) => Some(self.stats[i]),
            None => None,
        }
    }

    /// Whether the table holds `cmd`.
    pub fn contains_key(&self, cmd: &str) -> (r: bool)
        requires
            self.wf(),
        ensures
            r == self@.contains_key(cmd@),
    {
        let v = chars_of(cmd);
        self.find(v.as_slice()).is_some()
    }

    /// The commands of the table, as a set.
    pub closed spec fn command_seq(&self) -> Seq<Seq<char>> {
        self.commands@.map_values(|c: Vec<char>| c@)
    }

    /// The table holds finitely many commands, one per row.
    pub proof fn lemma_len(&self)
        requires
            self.wf(),
        ensures
            self@.dom().finite(),
            self@.len() == self.row_count(),
    {
        let cs = self.command_seq();
        assert(cs.len() == self.commands@.len());
        assert(cs.no_duplicates()) by {
            assert forall|a: int, b: int| 0 <= a < cs.len() && 0 <= b < cs.len() && a != b implies cs[a] != cs[b] by {
                assert(cs[a] == self.cmd_at(a));
                assert(cs[b] == self.cmd_at(b));
                if a < b {
                    assert(self.cmd_at(a) != self.cmd_at(b));
                } else {
                    assert(self.cmd_at(b) != self.cmd_at(a));
                }
            }
        }
        assert(self@.dom() =~= cs.to_set()) by {
            assert forall|q: Seq<char>| self@.dom().contains(q) implies cs.to_set().contains(q) by {
                assert(self.map@.contains_key(q));
                let j = choose|j: int| 0 <= j < self.commands@.len() && self.cmd_at(j) == q;
                assert(cs[j] == q);
                assert(cs.contains(q));
            }
            assert forall|q: Seq<char>| cs.to_set().contains(q) implies self@.dom().contains(q) by {
                assert(cs.contains(q));
                let j = choose|j: int| 0 <= j < cs.len() && cs[j] == q;
                assert(cs[j] == self.cmd_at(j));
                assert(self.map@.contains_key(self.cmd_at(j)));
            }
        }
        cs.unique_seq_to_set();
        vstd::seq_lib::seq_to_set_is_finite(cs);
    }

    /// The number of commands in the table.
    pub fn len(&self) -> (n: usize)
        requires
            self.wf(),
        ensures
            n == self@.len(),
            self@.dom().finite(),
    {
        proof {
            self.lemma_len();
        }
        self.commands.len()
    }

    /// The statistics of every command in the table, one per command.
    pub fn values(&self) -> (r: Vec<HistoryEntry>)
        requires
            self.wf(),
        ensures
            r@.len() == self@.len(),
            forall|i: int| 0 <= i < r@.len() ==> #[trigger] self@.contains_value(r@[i]),
            forall|k: Seq<char>| #[trigger] self@.contains_key(k) ==> r@.contains(self@[k]),
    {
        proof {
            self.lemma_len();
        }
        let r = self.stats.clone();
        assert(r@ =~= self.stats@);
        assert(r@.len() == self.commands@.len());
        assert forall|i: int| 0 <= i < r@.len() implies #[trigger] self@.contains_value(r@[i]) by {
            assert(self.map@.contains_key(self.cmd_at(i)));
            assert(r@[i] == self.stats@[i]);
            let k = self.cmd_at(i);
            assert(self@.contains_key(k) && self@[k] == r@[i]);
        }
        assert forall|k: Seq<char>| #[trigger] self@.contains_key(k) implies r@.contains(self@[k]) by {
            let j = choose|j: int| 0 <= j < self.commands@.len() && self.cmd_at(j) == k;
            assert(r@[j] == self@[k]);
        }
        r
    }
}


/// How many times `c` occurs in `cmds`.
pub open spec fn occurrences(cmds: Seq<Seq<char>>, c: Seq<char>) -> nat
    decreases cmds.len(),
{
    if cmds.len() == 0 {
        0
    } else {
        occurrences(cmds.drop_last(), c) + if cmds.last() == c {
            1nat
        } else {
            0nat
        }
    }
}

/// The frequency table of a sequence of commands: every non-empty command
/// that occurs, with the number of its occurrences, all last used at
/// `mtime`.
pub open spec fn tally(cmds: Seq<Seq<char>>, mtime: i64) -> Map<Seq<char>, HistoryEntry> {
    Map::new(
        |c: Seq<char>| c.len() > 0 && cmds.contains(c),
        |c: Seq<char>| HistoryEntry { frequency: occurrences(cmds, c) as usize, last_used_at: mtime },
    )
}

/// A command occurs at most as often as the sequence is long, and not at
/// all when the sequence does not hold it.
pub proof fn lemma_occurrences_bound(cmds: Seq<Seq<char>>, c: Seq<char>)
    ensures
        occurrences(cmds, c) <= cmds.len(),
        !cmds.contains(c) ==> occurrences(cmds, c) == 0,
        cmds.contains(c) ==> occurrences(cmds, c) > 0,
    decreases cmds.len(),
{
    if cmds.len() > 0 {
        let init = cmds.drop_last();
        lemma_occurrences_bound(init, c);
        if !cmds.contains(c) {
            assert forall|i: int| 0 <= i < init.len() implies init[i] != c by {
                assert(cmds[i] == init[i]);
            }
            assert(cmds.last() == cmds[cmds.len() - 1]);
        }
        if cmds.contains(c) && cmds.last() != c {
            let i = choose|i: int| 0 <= i < cmds.len() && cmds[i] == c;
            assert(i < cmds.len() - 1);
            assert(init[i] == c);
        }
    }
}

/// Adding one command to the sequence adds one to its frequency, or
/// enters it with frequency one.
pub proof fn lemma_tally_push(s: Seq<Seq<char>>, c: Seq<char>, mtime: i64)
    requires
        s.len() < usize::MAX,
    ensures
        tally(s.push(c), mtime) == (if c.len() == 0 {
            tally(s, mtime)
        } else if tally(s, mtime).contains_key(c) {
            tally(s, mtime).insert(
                c,
                HistoryEntry { frequency: (tally(s, mtime)[c].frequency + 1) as usize, last_used_at: mtime },
            )
        } else {
            tally(s, mtime).insert(c, HistoryEntry { frequency: 1, last_used_at: mtime })
        }),
{
    let t = s.push(c);
    assert(t.drop_last() =~= s);
    lemma_occurrences_bound(s, c);
    assert forall|k: Seq<char>| t.contains(k) <==> (s.contains(k) || k == c) by {
        if t.contains(k) && k != c {
            let i = choose|i: int| 0 <= i < t.len() && t[i] == k;
            assert(i < s.len());
            assert(s[i] == k);
        }
        if s.contains(k) {
            let i = choose|i: int| 0 <= i < s.len() && s[i] == k;
            assert(t[i] == k);
        }
        if k == c {
            assert(t[s.len() as int] == c);
        }
    }
    assert forall|k: Seq<char>| k != c implies occurrences(t, k) == occurrences(s, k) by {}
    assert(occurrences(t, c) == occurrences(s, c) + 1);
    if c.len() == 0 {
        assert(tally(t, mtime) =~= tally(s, mtime));
    } else if tally(s, mtime).contains_key(c) {
        assert(tally(t, mtime) =~= tally(s, mtime).insert(
            c,
            HistoryEntry { frequency: (tally(s, mtime)[c].frequency + 1) as usize, last_used_at: mtime },
        ));
    } else {
        assert(tally(t, mtime) =~= tally(s, mtime).insert(c, HistoryEntry { frequency: 1, last_used_at: mtime }));
    }
}

impl HistoryTable {
    /// Counts one more run of `cmd`, ignoring an empty command.
    fn bump(&mut self, cmd: Vec<char>, mtime: i64, Ghost(seen): Ghost<Seq<Seq<char>>>)
        requires
            old(self).wf(),
            old(self)@ == tally(seen, mtime),
            seen.len() < usize::MAX,
        ensures
            final(self).wf(),
            final(self)@ == tally(seen.push(cmd@), mtime),
    {
        proof {
            lemma_tally_push(seen, cmd@, mtime);
            lemma_occurrences_bound(seen, cmd@);
        }
        if cmd.len() == 0 {
            return;
        }
        match self.find(cmd.as_slice()) {
            Some(i) => {
                let old_e = self.stats[i];
                proof {
                    assert(self.map@.contains_key(self.cmd_at(i as int)));
                }
                self.set_at(i, HistoryEntry { frequency: old_e.frequency + 1, last_used_at: mtime });
            },
            None => {
                self.push_new(cmd, HistoryEntry { frequency: 1, last_used_at: mtime });
            },
        }
    }
}


/// What a line of zsh history holds after its `: <time>:<elapsed>;`
/// metadata prefix, if it has one.
pub open spec fn zsh_raw(line: Seq<char>) -> Seq<char> {
    if starts_with(line, seq![':', ' ']) {
        match char_pos(line, ';') {
            Some(i) => line.skip(i + 1),
            None => Seq::empty(),
        }
    } else {
        line
    }
}

/// One line of zsh history, read with the commands found so far and the
/// pending continuation (a command whose line ended in a backslash).
pub open spec fn zsh_step(out: Seq<Seq<char>>, cont: Seq<char>, line: Seq<char>) -> (
    Seq<Seq<char>>,
    Seq<char>,
) {
    if cont.len() > 0 {
        if ends_with_char(line, '\\') {
            (out, cont + seq!['\n'] + line.drop_last())
        } else {
            (out.push(cont + seq!['\n'] + line), Seq::empty())
        }
    } else {
        let raw = zsh_raw(line);
        if ends_with_char(raw, '\\') {
            (out, raw.drop_last())
        } else {
            (out.push(raw), Seq::empty())
        }
    }
}

/// The commands found in zsh history lines, and what continuation is
/// still pending after them.
pub open spec fn zsh_scan(ls: Seq<Seq<char>>) -> (Seq<Seq<char>>, Seq<char>)
    decreases ls.len(),
{
    if ls.len() == 0 {
        (Seq::empty(), Seq::empty())
    } else {
        let (out, cont) = zsh_scan(ls.drop_last());
        zsh_step(out, cont, ls.last())
    }
}

/// The commands of a zsh history file, a pending continuation at the end
/// counting as a command.
pub open spec fn zsh_commands(content: Seq<char>) -> Seq<Seq<char>> {
    let (out, cont) = zsh_scan(lines(content));
    if cont.len() > 0 {
        out.push(cont)
    } else {
        out
    }
}

/// The commands of a history file of the given shell, before trimming:
/// zsh files are read with their metadata and continuations, other shells'
/// files line by line.
pub open spec fn raw_commands(shell_type: Seq<char>, content: Seq<char>) -> Seq<Seq<char>> {
    if shell_type == "zsh"@ {
        zsh_commands(content)
    } else {
        lines(content)
    }
}

/// The trimmed commands of a history file.
pub open spec fn history_commands(shell_type: Seq<char>, content: Seq<char>) -> Seq<Seq<char>> {
    raw_commands(shell_type, content).map_values(|c: Seq<char>| trim(c))
}

/// The command a zsh history line holds (see `zsh_raw`).
fn zsh_raw_chars(line: &[char]) -> (r: Vec<char>)
    ensures
        r@ == zsh_raw(line@),
{
    let n = line.len();
    if n >= 2 && line[0] == ':' && line[1] == ' ' {
        assert(line@.take(2) =~= seq![':', ' ']);
        match find_char(line, ';') {
            Some(i) => {
                assert(line@.skip(i + 1) =~= line@.subrange(i + 1, n as int));
                slice_chars(line, i + 1, n)
            },
            None => Vec::new(),
        }
    } else {
        assert(!starts_with(line@, seq![':', ' '])) by {
            if starts_with(line@, seq![':', ' ']) {
                assert(line@.take(2)[0] == ':');
                assert(line@.take(2)[1] == ' ');
            }
        }
        let r = slice_chars(line, 0, n);
        assert(r@ =~= line@);
        r
    }
}


/// Appends `src[from..to]` to `dst`.
fn append_range(dst: &mut Vec<char>, src: &[char], from: usize, to: usize)
    requires
        from <= to <= src@.len(),
    ensures
        final(dst)@ == old(dst)@ + src@.subrange(from as int, to as int),
{
    let mut k = from;
    while k < to
        invariant
            from <= k <= to <= src@.len(),
            dst@ == old(dst)@ + src@.subrange(from as int, k as int),
        decreases to - k,
    {
        dst.push(src[k]);
        k = k + 1;
        assert(dst@ =~= old(dst)@ + src@.subrange(from as int, k as int));
    }
}

/// Reads a shell history file into a frequency table: each non-empty,
/// trimmed command with the number of times it was run, all last used at
/// `default_mtime`. zsh files (`shell_type == "zsh"`) may hold
/// `: <time>:<elapsed>;` metadata before a command and backslash line
/// continuations; other shells' files hold one command per line.
pub fn parse_history(shell_type: &str, content: &str, default_mtime: i64) -> (r: HistoryTable)
    ensures
        r.wf(),
        r@ == tally(history_commands(shell_type@, content@), default_mtime),
{
    let v = chars_of(content);
    let ls = split_lines(v.as_slice());
    let ghost lv = lines(v@);
    let n = ls.len();
    let mut table = HistoryTable::new();
    let ghost mut out: Seq<Seq<char>> = Seq::empty();
    assert(tally(Seq::empty(), default_mtime) =~= Map::<Seq<char>, HistoryEntry>::empty());
    if str_eq(shell_type, "zsh") {
        let mut cont: Vec<char> = Vec::new();
        let mut i: usize = 0;
        assert(lv.take(0) =~= Seq::<Seq<char>>::empty());
        while i < n
            invariant
                n == ls@.len() == lv.len(),
                forall|j: int| 0 <= j < n ==> #[trigger] ls@[j]@ == lv[j],
                i <= n,
                zsh_scan(lv.take(i as int)) == (out, cont@),
                table.wf(),
                table@ == tally(out.map_values(|c: Seq<char>| trim(c)), default_mtime),
                out.len() + (if cont@.len() > 0 { 1int } else { 0int }) <= i,
            decreases n - i,
        {
            let line = &ls[i];
            assert(lv.take(i + 1).drop_last() =~= lv.take(i as int));
            assert(lv.take(i + 1).last() == line@);
            let m = line.len();
            if cont.len() > 0 {
                if m > 0 && line[m - 1] == '\\' {
                    cont.push('\n');
                    append_range(&mut cont, line.as_slice(), 0, m - 1);
                    assert(cont@ =~= zsh_scan(lv.take(i + 1)).1);
                } else {
                    let ghost before = cont@;
                    cont.push('\n');
                    append_range(&mut cont, line.as_slice(), 0, m);
                    assert(line@.subrange(0, m as int) =~= line@);
                    assert(cont@ =~= before + seq!['\n'] + line@);
                    let t = trim_chars(cont.as_slice());
                    proof {
                        assert(out.map_values(|c: Seq<char>| trim(c)).len() == out.len());
                    }
                    table.bump(t, default_mtime, Ghost(out.map_values(|c: Seq<char>| trim(c))));
                    proof {
                        assert(out.push(cont@).map_values(|c: Seq<char>| trim(c)) =~= out.map_values(
                            |c: Seq<char>| trim(c),
                        ).push(trim(cont@)));
                        out = out.push(cont@);
                    }
                    cont = Vec::new();
                    assert(zsh_scan(lv.take(i + 1)) == (out, cont@));
                }
            } else {
                let raw = zsh_raw_chars(line.as_slice());
                let k = raw.len();
                if k > 0 && raw[k - 1] == '\\' {
                    cont = slice_chars(raw.as_slice(), 0, k - 1);
                    assert(cont@ =~= raw@.drop_last());
                } else {
                    let t = trim_chars(raw.as_slice());
                    proof {
                        assert(out.map_values(|c: Seq<char>| trim(c)).len() == out.len());
                    }
                    table.bump(t, default_mtime, Ghost(out.map_values(|c: Seq<char>| trim(c))));
                    proof {
                        assert(out.push(raw@).map_values(|c: Seq<char>| trim(c)) =~= out.map_values(
                            |c: Seq<char>| trim(c),
                        ).push(trim(raw@)));
                        out = out.push(raw@);
                    }
                }
            }
            i = i + 1;
        }
        assert(lv.take(n as int) =~= lv);
        if cont.len() > 0 {
            let t = trim_chars(cont.as_slice());
            proof {
                assert(out.map_values(|c: Seq<char>| trim(c)).len() == out.len());
            }
            table.bump(t, default_mtime, Ghost(out.map_values(|c: Seq<char>| trim(c))));
            proof {
                assert(out.push(cont@).map_values(|c: Seq<char>| trim(c)) =~= out.map_values(
                    |c: Seq<char>| trim(c),
                ).push(trim(cont@)));
                out = out.push(cont@);
            }
        }
        assert(out == zsh_commands(content@));
    } else {
        let mut i: usize = 0;
        while i < n
            invariant
                n == ls@.len() == lv.len(),
                forall|j: int| 0 <= j < n ==> #[trigger] ls@[j]@ == lv[j],
                i <= n,
                out == lv.take(i as int),
                table.wf(),
                table@ == tally(out.map_values(|c: Seq<char>| trim(c)), default_mtime),
            decreases n - i,
        {
            let t = trim_chars(ls[i].as_slice());
            proof {
                assert(out.map_values(|c: Seq<char>| trim(c)).len() == out.len());
            }
            table.bump(t, default_mtime, Ghost(out.map_values(|c: Seq<char>| trim(c))));
            proof {
                assert(out.push(lv[i as int]).map_values(|c: Seq<char>| trim(c)) =~= out.map_values(
                    |c: Seq<char>| trim(c),
                ).push(trim(lv[i as int])));
                out = out.push(lv[i as int]);
                assert(out =~= lv.take(i + 1));
            }
            i = i + 1;
        }
        assert(lv.take(n as int) =~= lv);
    }
    table
}


/// A suggested command with its statistics.
#[derive(Clone, Debug)]
pub struct SuggestionItem {
    pub command: String,
    pub frequency: usize,
    pub last_used_at: Option<i64>,
}

/// The query of a history lookup: an optional filter and an optional
/// result limit.
#[derive(Clone, Debug)]
pub struct HistoryQuery {
    pub prefix: Option<String>,
    pub limit: Option<usize>,
}

/// The body of a history deletion request.
#[derive(Clone, Debug)]
pub struct DeleteBody {
    pub command: String,
}

/// A string slice option, seen as an option of character sequences.
pub open spec fn opt_str_view(o: Option<&str>) -> Option<Seq<char>> {
    match o {
        Some(p) => Some(p@),
        None => None,
    }
}

/// `cmd` passes the filter: no filter, an empty filter, or `cmd` holds the
/// filter text somewhere (not only at its start).
pub open spec fn matches_filter(prefix: Option<Seq<char>>, cmd: Seq<char>) -> bool {
    match prefix {
        Some(p) => p.len() == 0 || contains_seq(cmd, p),
        None => true,
    }
}

/// `a` ranks at least as high as `b`: more frequent, or as frequent and
/// used at least as recently.
pub open spec fn ranks_at_least(a: HistoryEntry, b: HistoryEntry) -> bool {
    a.frequency > b.frequency || (a.frequency == b.frequency && a.last_used_at >= b.last_used_at)
}

/// The statistics a suggestion reports.
pub open spec fn item_entry(it: SuggestionItem) -> HistoryEntry {
    HistoryEntry {
        frequency: it.frequency,
        last_used_at: match it.last_used_at {
            Some(t) => t,
            None => 0,
        },
    }
}

/// `r` is a ranked selection from `table` under the filter and limit:
/// at most `limit` distinct matching commands with their statistics,
/// best first, and every matching command left out ranks no higher than
/// any that was taken (and is left out only because the limit is full).
pub open spec fn is_ranked_selection(
    table: Map<Seq<char>, HistoryEntry>,
    prefix: Option<Seq<char>>,
    limit: usize,
    r: Seq<SuggestionItem>,
) -> bool {
    &&& r.len() <= limit
    &&& forall|i: int|
        0 <= i < r.len() ==> {
            &&& table.contains_key(#[trigger] r[i].command@)
            &&& matches_filter(prefix, r[i].command@)
            &&& r[i].frequency == table[r[i].command@].frequency
            &&& r[i].last_used_at == Some(table[r[i].command@].last_used_at)
        }
    &&& forall|i: int, j: int| 0 <= i < j < r.len() ==> r[i].command@ != r[j].command@
    &&& forall|i: int, j: int|
        0 <= i < j < r.len() ==> ranks_at_least(item_entry(r[i]), item_entry(r[j]))
    &&& forall|k: Seq<char>|
        #[trigger] table.contains_key(k) && matches_filter(prefix, k) && (forall|i: int|
            0 <= i < r.len() ==> r[i].command@ != k) ==> {
            &&& r.len() == limit
            &&& forall|i: int| 0 <= i < r.len() ==> ranks_at_least(item_entry(r[i]), table[k])
        }
}

/// Whether `a` ranks strictly higher than `b`.
fn ranks_above(a: HistoryEntry, b: HistoryEntry) -> (r: bool)
    ensures
        r == (a.frequency > b.frequency || (a.frequency == b.frequency && a.last_used_at
            > b.last_used_at)),
{
    a.frequency > b.frequency || (a.frequency == b.frequency && a.last_used_at > b.last_used_at)
}

impl HistoryTable {
    /// Which rows pass the filter.
    fn filter_flags(&self, prefix: Option<&str>) -> (ok: Vec<bool>)
        requires
            self.wf(),
        ensures
            ok@.len() == self.commands@.len(),
            forall|j: int|
                0 <= j < ok@.len() ==> #[trigger] ok@[j] == matches_filter(
                    opt_str_view(prefix),
                    self.cmd_at(j),
                ),
    {
        let p: Vec<char> = match prefix {
            Some(x) => chars_of(x),
            None => Vec::new(),
        };
        let mut ok: Vec<bool> = Vec::new();
        let mut j: usize = 0;
        while j < self.commands.len()
            invariant
                self.wf(),
                j <= self.commands@.len(),
                ok@.len() == j,
                p@ == match prefix {
                    Some(x) => x@,
                    None => Seq::<char>::empty(),
                },
                forall|q: int|
                    0 <= q < j ==> #[trigger] ok@[q] == matches_filter(
                        opt_str_view(prefix),
                        self.cmd_at(q),
                    ),
            decreases self.commands@.len() - j,
        {
            let b = if p.len() == 0 {
                true
            } else {
                contains_chars(self.commands[j].as_slice(), p.as_slice())
            };
            ok.push(b);
            j = j + 1;
        }
        ok
    }

    /// The best-ranked commands that pass the filter, at most `limit` of
    /// them, best first.
    pub fn ranked(&self, prefix: Option<&str>, limit: usize) -> (r: Vec<SuggestionItem>)
        requires
            self.wf(),
        ensures
            is_ranked_selection(self@, opt_str_view(prefix), limit, r@),
    {
        let n = self.commands.len();
        let ok = self.filter_flags(prefix);
        let mut taken: Vec<bool> = Vec::new();
        let mut z: usize = 0;
        while z < n
            invariant
                z <= n,
                taken@.len() == z,
                forall|q: int| 0 <= q < z ==> !#[trigger] taken@[q],
            decreases n - z,
        {
            taken.push(false);
            z = z + 1;
        }
        let mut r: Vec<SuggestionItem> = Vec::new();
        let ghost mut chosen: Seq<int> = Seq::empty();
        let mut exhausted = false;
        while r.len() < limit && !exhausted
            invariant
                self.wf(),
                n == self.commands@.len() == self.stats@.len() == ok@.len() == taken@.len(),
                r@.len() == chosen.len() <= limit,
                forall|p: int|
                    0 <= p < chosen.len() ==> {
                        &&& 0 <= #[trigger] chosen[p] < n
                        &&& ok@[chosen[p]]
                        &&& r@[p].command@ == self.cmd_at(chosen[p])
                        &&& r@[p].frequency == self.stats@[chosen[p]].frequency
                        &&& r@[p].last_used_at == Some(self.stats@[chosen[p]].last_used_at)
                    },
                forall|p: int, q: int| 0 <= p < q < chosen.len() ==> chosen[p] != chosen[q],
                forall|j: int| 0 <= j < n ==> (#[trigger] taken@[j] <==> chosen.contains(j)),
                forall|p: int, q: int|
                    0 <= p < q < chosen.len() ==> ranks_at_least(
                        self.stats@[chosen[p]],
                        self.stats@[chosen[q]],
                    ),
                forall|j: int, p: int|
                    0 <= j < n && ok@[j] && !taken@[j] && 0 <= p < chosen.len() ==> ranks_at_least(
                        self.stats@[#[trigger] chosen[p]],
                        #[trigger] self.stats@[j],
                    ),
                exhausted ==> forall|j: int| 0 <= j < n && ok@[j] ==> #[trigger] taken@[j],
            decreases limit - r@.len(), if exhausted { 0int } else { 1int },
        {
            let mut best: Option<usize> = None;
            let mut j: usize = 0;
            while j < n
                invariant
                    n == self.commands@.len() == self.stats@.len() == ok@.len() == taken@.len(),
                    j <= n,
                    best matches Some(b) ==> b < n && ok@[b as int] && !taken@[b as int],
                    best matches Some(b) ==> forall|q: int|
                        0 <= q < j && ok@[q] && !taken@[q] ==> ranks_at_least(
                            self.stats@[b as int],
                            #[trigger] self.stats@[q],
                        ),
                    best is None ==> forall|q: int| 0 <= q < j && ok@[q] ==> #[trigger] taken@[q],
                decreases n - j,
            {
                if ok[j] && !taken[j] {
                    match best {
                        None => {
                            best = Some(j);
                        },
                        Some(b) => {
                            if ranks_above(self.stats[j], self.stats[b]) {
                                best = Some(j);
                            }
                        },
                    }
                }
                j = j + 1;
            }
            match best {
                None => {
                    exhausted = true;
                },
                Some(b) => {
                    let e = self.stats[b];
                    let item = SuggestionItem {
                        command: string_of(self.commands[b].as_slice()),
                        frequency: e.frequency,
                        last_used_at: Some(e.last_used_at),
                    };
                    r.push(item);
                    taken.set(b, true);
                    proof {
                        let old_chosen = chosen;
                        chosen = chosen.push(b as int);
                        assert forall|q: int| 0 <= q < n implies (#[trigger] taken@[q]
                            <==> chosen.contains(q)) by {
                            if q == b {
                                assert(chosen[chosen.len() - 1] == q);
                            } else {
                                if old_chosen.contains(q) {
                                    let w = choose|w: int|
                                        0 <= w < old_chosen.len() && old_chosen[w] == q;
                                    assert(chosen[w] == q);
                                }
                                if chosen.contains(q) {
                                    let w = choose|w: int| 0 <= w < chosen.len() && chosen[w] == q;
                                    assert(w < old_chosen.len());
                                    assert(old_chosen[w] == q);
                                }
                            }
                        }
                        assert forall|p: int, q: int|
                            0 <= p < q < chosen.len() implies chosen[p] != chosen[q] by {
                            if q == chosen.len() - 1 {
                                assert(taken@[chosen[p]] == true) by {
                                    assert(old_chosen.contains(old_chosen[p]));
                                }
                            }
                        }
                        assert forall|p: int| 0 <= p < chosen.len() implies {
                            &&& 0 <= #[trigger] chosen[p] < n
                            &&& ok@[chosen[p]]
                            &&& r@[p].command@ == self.cmd_at(chosen[p])
                            &&& r@[p].frequency == self.stats@[chosen[p]].frequency
                            &&& r@[p].last_used_at == Some(self.stats@[chosen[p]].last_used_at)
                        } by {
                            if p < old_chosen.len() {
                                assert(chosen[p] == old_chosen[p]);
                            }
                        }
                    }
                },
            }
        }
        proof {
            let t = self@;
            let pv = opt_str_view(prefix);
            assert forall|i: int| 0 <= i < r@.len() implies {
                &&& t.contains_key(#[trigger] r@[i].command@)
                &&& matches_filter(pv, r@[i].command@)
                &&& r@[i].frequency == t[r@[i].command@].frequency
                &&& r@[i].last_used_at == Some(t[r@[i].command@].last_used_at)
            } by {
                assert(self.map@.contains_key(self.cmd_at(chosen[i])));
                assert(ok@[chosen[i]]);
            }
            assert forall|i: int, j: int| 0 <= i < j < r@.len() implies r@[i].command@
                != r@[j].command@ by {
                assert(chosen[i] != chosen[j]);
                if chosen[i] < chosen[j] {
                    assert(self.cmd_at(chosen[i]) != self.cmd_at(chosen[j]));
                } else {
                    assert(self.cmd_at(chosen[j]) != self.cmd_at(chosen[i]));
                }
            }
            assert forall|i: int, j: int| 0 <= i < j < r@.len() implies ranks_at_least(
                item_entry(r@[i]),
                item_entry(r@[j]),
            ) by {
                assert(ranks_at_least(self.stats@[chosen[i]], self.stats@[chosen[j]]));
            }
            assert forall|k: Seq<char>|
                #[trigger] t.contains_key(k) && matches_filter(pv, k) && (forall|i: int|
                    0 <= i < r@.len() ==> r@[i].command@ != k) implies {
                &&& r@.len() == limit
                &&& forall|i: int|
                    0 <= i < r@.len() ==> ranks_at_least(item_entry(r@[i]), t[k])
            } by {
                assert(self.map@.contains_key(k));
                let j = choose|j: int| 0 <= j < self.commands@.len() && self.cmd_at(j) == k;
                assert(self.map@.contains_key(self.cmd_at(j)));
                assert(ok@[j]);
                if taken@[j] {
                    let w = choose|w: int| 0 <= w < chosen.len() && chosen[w] == j;
                    assert(r@[w].command@ == k);
                }
                assert forall|i: int| 0 <= i < r@.len() implies ranks_at_least(
                    item_entry(r@[i]),
                    t[k],
                ) by {
                    assert(ranks_at_least(self.stats@[chosen[i]], self.stats@[j]));
                }
            }
        }
        r
    }
}


/// The number of suggestions a history request returns: the requested
/// limit, 20 by default, at most 100.
pub fn history_limit(limit: Option<usize>) -> (n: usize)
    ensures
        n == (match limit {
            Some(l) => if l < 100 {
                l
            } else {
                100
            },
            None => 20,
        }),
{
    let l = match limit {
        Some(l) => l,
        None => 20,
    };
    if l < 100 {
        l
    } else {
        100
    }
}

/// The name of the history file in the home directory of the given shell.
pub fn history_file_name(shell_type: &str) -> (name: &'static str)
    ensures
        shell_type@ == "zsh"@ ==> name@ == ".zsh_history"@,
        shell_type@ == "bash"@ ==> name@ == ".bash_history"@,
        shell_type@ != "zsh"@ && shell_type@ != "bash"@ ==> name@ == ".sh_history"@,
{
    proof {
        reveal_strlit("zsh");
        reveal_strlit("bash");
        assert("zsh"@.len() == 3);
        assert("bash"@.len() == 4);
    }
    if str_eq(shell_type, "zsh") {
        ".zsh_history"
    } else if str_eq(shell_type, "bash") {
        ".bash_history"
    } else {
        ".sh_history"
    }
}

/// The table after recording a run of `command` at `now`: its trimmed
/// text gains one run and is last used at `now`, unless it is empty or
/// deleted.
pub open spec fn recorded(
    t: Map<Seq<char>, HistoryEntry>,
    deleted: Set<Seq<char>>,
    command: Seq<char>,
    now: i64,
) -> Map<Seq<char>, HistoryEntry> {
    let c = trim(command);
    if c.len() == 0 || deleted.contains(c) {
        t
    } else {
        t.insert(
            c,
            HistoryEntry {
                frequency: (if t.contains_key(c) {
                    t[c].frequency + 1
                } else {
                    1
                }) as usize,
                last_used_at: now,
            },
        )
    }
}

/// The table a reload of a history file gives: what the file holds,
/// without the deleted commands.
pub open spec fn reloaded(
    shell_type: Seq<char>,
    content: Seq<char>,
    mtime: i64,
    deleted: Set<Seq<char>>,
) -> Map<Seq<char>, HistoryEntry> {
    tally(history_commands(shell_type, content), mtime).remove_keys(deleted)
}

/// The suggestion store of one shell: the command table and the commands
/// the user deleted, which later reloads and recordings leave out.
pub struct HistoryState {
    entries: HistoryTable,
    deleted: Vec<Vec<char>>,
    shell_type: String,
}

impl HistoryState {
    /// The command table.
    pub closed spec fn entries_view(&self) -> Map<Seq<char>, HistoryEntry> {
        self.entries@
    }

    /// The deleted commands.
    pub closed spec fn deleted_view(&self) -> Set<Seq<char>> {
        self.deleted@.map_values(|c: Vec<char>| c@).to_set()
    }

    /// The shell whose history this is.
    pub closed spec fn shell_view(&self) -> Seq<char> {
        self.shell_type@
    }

    /// The command table is well formed.
    pub closed spec fn wf(&self) -> bool {
        self.entries.wf()
    }

    /// An empty store for the given shell.
    pub fn new(shell_type: &str) -> (s: HistoryState)
        ensures
            s.wf(),
            s.entries_view() == Map::<Seq<char>, HistoryEntry>::empty(),
            s.deleted_view() == Set::<Seq<char>>::empty(),
            s.shell_view() == shell_type@,
    {
        let s = HistoryState {
            entries: HistoryTable::new(),
            deleted: Vec::new(),
            shell_type: string_of(chars_of(shell_type).as_slice()),
        };
        assert(s.deleted_view() =~= Set::<Seq<char>>::empty());
        s
    }

    /// The shell whose history this is.
    pub fn shell_type(&self) -> (r: String)
        ensures
            r@ == self.shell_view(),
    {
        self.shell_type.clone()
    }

    /// Whether `cmd` was deleted.
    fn is_deleted(&self, cmd: &[char]) -> (r: bool)
        ensures
            r == self.deleted_view().contains(cmd@),
    {
        let mut i: usize = 0;
        while i < self.deleted.len()
            invariant
                i <= self.deleted@.len(),
                forall|j: int| 0 <= j < i ==> self.deleted@[j]@ != cmd@,
            decreases self.deleted@.len() - i,
        {
            if chars_eq(self.deleted[i].as_slice(), cmd) {
                assert(self.deleted@.map_values(|c: Vec<char>| c@)[i as int] == cmd@);
                return true;
            }
            i = i + 1;
        }
        proof {
            let dv = self.deleted@.map_values(|c: Vec<char>| c@);
            if dv.contains(cmd@) {
                let j = choose|j: int| 0 <= j < dv.len() && dv[j] == cmd@;
                assert(self.deleted@[j]@ == cmd@);
            }
        }
        false
    }

    /// The first load of the history file: the table becomes what
    /// `content` holds, all entries last used at `mtime`.
    pub fn load_initial(&mut self, content: &str, mtime: i64)
        requires
            old(self).wf(),
        ensures
            final(self).wf(),
            final(self).entries_view() == tally(
                history_commands(old(self).shell_view(), content@),
                mtime,
            ),
            final(self).deleted_view() == old(self).deleted_view(),
            final(self).shell_view() == old(self).shell_view(),
    {
        self.entries = parse_history(self.shell_type.as_str(), content, mtime);
    }

    /// A reload after the history file changed: the table becomes what
    /// `content` holds, without the deleted commands.
    pub fn reload_incremental(&mut self, content: &str, mtime: i64)
        requires
            old(self).wf(),
        ensures
            final(self).wf(),
            final(self).entries_view() == reloaded(
                old(self).shell_view(),
                content@,
                mtime,
                old(self).deleted_view(),
            ),
            final(self).entries_view() == tally(
                history_commands(old(self).shell_view(), content@),
                mtime,
            ).remove_keys(old(self).deleted_view()),
            final(self).deleted_view() == old(self).deleted_view(),
            final(self).shell_view() == old(self).shell_view(),
    {
        let mut table = parse_history(self.shell_type.as_str(), content, mtime);
        let ghost parsed = table@;
        let ghost dv = self.deleted@.map_values(|c: Vec<char>| c@);
        let mut i: usize = 0;
        assert(dv.take(0).to_set() =~= Set::<Seq<char>>::empty());
        assert(parsed.remove_keys(Set::empty()) =~= parsed);
        while i < self.deleted.len()
            invariant
                i <= self.deleted@.len() == dv.len(),
                forall|j: int| 0 <= j < dv.len() ==> #[trigger] dv[j] == self.deleted@[j]@,
                table.wf(),
                table@ == parsed.remove_keys(dv.take(i as int).to_set()),
            decreases self.deleted@.len() - i,
        {
            table.remove(self.deleted[i].as_slice());
            proof {
                assert(dv.take(i + 1).to_set() =~= dv.take(i as int).to_set().insert(dv[i as int])) by {
                    assert(dv.take(i + 1) =~= dv.take(i as int).push(dv[i as int]));
                    vstd::seq_lib::lemma_seq_contains_after_push(dv.take(i as int), dv[i as int], dv[i as int]);
                    assert forall|q: Seq<char>| dv.take(i + 1).contains(q) <==> (dv.take(i as int).contains(q) || q == dv[i as int]) by {
                        vstd::seq_lib::lemma_seq_contains_after_push(dv.take(i as int), dv[i as int], q);
                    }
                }
                assert(table@ =~= parsed.remove_keys(dv.take(i + 1).to_set()));
            }
            i = i + 1;
        }
        assert(dv.take(dv.len() as int) =~= dv);
        self.entries = table;
    }

    /// The best-ranked suggestions whose command holds `prefix` (all, when
    /// it is absent or empty), at most `limit` of them, best first.
    pub fn query(&self, prefix: Option<&str>, limit: usize) -> (r: Vec<SuggestionItem>)
        requires
            self.wf(),
        ensures
            is_ranked_selection(self.entries_view(), opt_str_view(prefix), limit, r@),
    {
        self.entries.ranked(prefix, limit)
    }

    /// The suggestions sent to every listener after a change: the 20 best.
    pub fn top_suggestions(&self) -> (r: Vec<SuggestionItem>)
        requires
            self.wf(),
        ensures
            is_ranked_selection(self.entries_view(), None, 20, r@),
    {
        self.query(None, 20)
    }

    /// Recording `command` now would overflow its frequency.
    pub closed spec fn record_overflows(&self, command: Seq<char>) -> bool {
        let c = trim(command);
        self.entries@.contains_key(c) && self.entries@[c].frequency == usize::MAX
    }

    /// Whether recording `command` would overflow its frequency.
    pub fn push_would_overflow(&self, command: &str) -> (r: bool)
        requires
            self.wf(),
        ensures
            r == self.record_overflows(command@),
    {
        let c = trim_str(command);
        match self.entries.find(c.as_slice()) {
            Some(i) => {
                proof {
                    assert(self.entries.map@.contains_key(self.entries.cmd_at(i as int)));
                }
                self.entries.stats[i].frequency == usize::MAX
            },
            None => false,
        }
    }

    /// Records that `command` was run at `now`: its trimmed text gains one
    /// run and is last used at `now`. An empty or deleted command is
    /// ignored.
    pub fn push_realtime_at(&mut self, command: &str, now: i64)
        requires
            old(self).wf(),
            !old(self).record_overflows(command@),
        ensures
            final(self).wf(),
            final(self).deleted_view() == old(self).deleted_view(),
            final(self).shell_view() == old(self).shell_view(),
            final(self).entries_view() == recorded(
                old(self).entries_view(),
                old(self).deleted_view(),
                command@,
                now,
            ),
    {
        let c = trim_str(command);
        if c.len() == 0 {
            return;
        }
        if self.is_deleted(c.as_slice()) {
            return;
        }
        match self.entries.find(c.as_slice()) {
            Some(i) => {
                proof {
                    assert(self.entries.map@.contains_key(self.entries.cmd_at(i as int)));
                }
                let f = self.entries.stats[i].frequency;
                self.entries.set_at(i, HistoryEntry { frequency: f + 1, last_used_at: now });
            },
            None => {
                self.entries.push_new(c, HistoryEntry { frequency: 1, last_used_at: now });
            },
        }
    }

    /// Records that `command` was run just now (see `push_realtime_at`).
    pub fn push_realtime(&mut self, command: &str)
        requires
            old(self).wf(),
            !old(self).record_overflows(command@),
        ensures
            final(self).wf(),
            final(self).deleted_view() == old(self).deleted_view(),
            final(self).shell_view() == old(self).shell_view(),
            exists|now: i64|
                now >= 0 && final(self).entries_view() == #[trigger] recorded(
                    old(self).entries_view(),
                    old(self).deleted_view(),
                    command@,
                    now,
                ),
    {
        let now = now_unix();
        self.push_realtime_at(command, now);
        assert(now >= 0 && self.entries_view() == recorded(
            old(self).entries_view(),
            old(self).deleted_view(),
            command@,
            now,
        ));
    }

    /// Deletes `command`: it leaves the table and is remembered as deleted.
    pub fn delete(&mut self, command: &str)
        requires
            old(self).wf(),
        ensures
            final(self).wf(),
            final(self).entries_view() == old(self).entries_view().remove(command@),
            final(self).deleted_view() == old(self).deleted_view().insert(command@),
            final(self).shell_view() == old(self).shell_view(),
    {
        let c = chars_of(command);
        if !self.is_deleted(c.as_slice()) {
            let ghost dv = self.deleted@.map_values(|x: Vec<char>| x@);
            self.deleted.push(c.clone());
            proof {
                let dv2 = self.deleted@.map_values(|x: Vec<char>| x@);
                assert(dv2 =~= dv.push(command@));
                assert forall|q: Seq<char>| dv2.contains(q) <==> (dv.contains(q) || q == command@) by {
                    vstd::seq_lib::lemma_seq_contains_after_push(dv, command@, q);
                }
                assert(self.deleted_view() =~= old(self).deleted_view().insert(command@));
            }
        } else {
            assert(self.deleted_view() =~= old(self).deleted_view().insert(command@));
        }
        self.entries.remove(c.as_slice());
    }
}


/// A deleted command does not come back when the history file is
/// reloaded, whatever the file holds.
pub proof fn law_deleted_command_is_not_reloaded(
    shell_type: Seq<char>,
    content: Seq<char>,
    mtime: i64,
    deleted: Set<Seq<char>>,
    command: Seq<char>,
)
    ensures
        !reloaded(shell_type, content, mtime, deleted.insert(command)).contains_key(command),
{
}

/// Recording a command whose trimmed text was deleted changes nothing.
pub proof fn law_deleted_command_is_not_recorded(
    t: Map<Seq<char>, HistoryEntry>,
    deleted: Set<Seq<char>>,
    command: Seq<char>,
    now: i64,
)
    ensures
        recorded(t.remove(trim(command)), deleted.insert(trim(command)), command, now) == t.remove(
            trim(command),
        ),
{
}

/// Every recording of a command counts once: recording it twice adds two
/// runs, and it is last used at the later time.
pub proof fn law_recordings_add_up(
    t: Map<Seq<char>, HistoryEntry>,
    deleted: Set<Seq<char>>,
    command: Seq<char>,
    first: i64,
    second: i64,
)
    requires
        trim(command).len() > 0,
        !deleted.contains(trim(command)),
        t.contains_key(trim(command)) ==> t[trim(command)].frequency + 2 <= usize::MAX,
    ensures
        ({
            let c = trim(command);
            let after = recorded(recorded(t, deleted, command, first), deleted, command, second);
            &&& after.contains_key(c)
            &&& after[c].frequency == (if t.contains_key(c) {
                t[c].frequency + 2
            } else {
                2
            })
            &&& after[c].last_used_at == second
            &&& forall|k: Seq<char>| k != c ==> after.contains_key(k) == t.contains_key(k)
                && (t.contains_key(k) ==> after[k] == t[k])
        }),
{
}

/// A command that ranks higher than a suggested one (more frequent, or as
/// frequent and more recently used) and passes the filter is suggested
/// too, and comes earlier.
pub proof fn law_higher_rank_comes_first(
    table: Map<Seq<char>, HistoryEntry>,
    prefix: Option<Seq<char>>,
    limit: usize,
    r: Seq<SuggestionItem>,
    a: Seq<char>,
    j: int,
)
    requires
        is_ranked_selection(table, prefix, limit, r),
        table.contains_key(a),
        matches_filter(prefix, a),
        0 <= j < r.len(),
        table[a].frequency > r[j].frequency || (table[a].frequency == r[j].frequency
            && table[a].last_used_at > item_entry(r[j]).last_used_at),
    ensures
        exists|i: int| 0 <= i < j && r[i].command@ == a,
{
    let b = r[j].command@;
    assert(table.contains_key(b));
    if forall|i: int| 0 <= i < r.len() ==> r[i].command@ != a {
        assert(ranks_at_least(item_entry(r[j]), table[a]));
    } else {
        let i = choose|i: int| 0 <= i < r.len() && r[i].command@ == a;
        assert(table.contains_key(r[i].command@));
        if i > j {
            assert(ranks_at_least(item_entry(r[j]), item_entry(r[i])));
        } else if i == j {
        } else {
            assert(0 <= i < j && r[i].command@ == a);
        }
    }
}


/// A zsh history line `: <meta>;<cmd>` whose metadata holds no `;`.
pub open spec fn zsh_line(meta: Seq<char>, cmd: Seq<char>) -> Seq<char> {
    seq![':', ' '] + meta + seq![';'] + cmd
}

/// The command of a zsh history line is everything after the first `;`,
/// the one that ends the `: <time>:<elapsed>` metadata: semicolons inside
/// the command are kept.
pub proof fn law_zsh_command_follows_the_metadata(meta: Seq<char>, cmd: Seq<char>)
    requires
        !meta.contains(';'),
    ensures
        zsh_raw(zsh_line(meta, cmd)) == cmd,
{
    let line = zsh_line(meta, cmd);
    let i: int = 2 + meta.len() as int;
    assert(line.take(2) =~= seq![':', ' ']);
    assert(line[i] == ';');
    assert forall|j: int| 0 <= j < i implies line[j] != ';' by {
        if j >= 2 {
            assert(line[j] == meta[j - 2]);
        }
    }
    assert(is_first_pos(line, ';', i));
    lemma_char_pos_is(line, ';', i);
    assert(line.skip(i + 1) =~= cmd);
}

/// A zsh history file of one such line (the command holding no line break
/// and not continued on the next line) yields exactly that command,
/// trimmed.
pub proof fn law_zsh_file_of_one_line(meta: Seq<char>, cmd: Seq<char>)
    requires
        !meta.contains(';'),
        !meta.contains('\n'),
        !cmd.contains('\n'),
        !ends_with_char(cmd, '\r'),
        !ends_with_char(cmd, '\\'),
    ensures
        history_commands("zsh"@, zsh_line(meta, cmd) + seq!['\n']) == seq![trim(cmd)],
{
    let line = zsh_line(meta, cmd);
    let content = line + seq!['\n'];
    law_zsh_command_follows_the_metadata(meta, cmd);
    assert forall|j: int| 0 <= j < line.len() implies line[j] != '\n' by {
        if 2 <= j < 2 + meta.len() {
            assert(line[j] == meta[j - 2]);
        } else if j > 2 + meta.len() {
            assert(line[j] == cmd[j - 3 - meta.len()]);
        }
    }
    assert(is_first_pos(content, '\n', line.len() as int));
    lemma_char_pos_is(content, '\n', line.len() as int);
    assert(content.take(line.len() as int) =~= line);
    assert(content.skip(line.len() as int + 1) =~= Seq::<char>::empty());
    assert(ends_with_char(line, '\r') == ends_with_char(cmd, '\r')) by {
        if cmd.len() == 0 {
            assert(line.last() == ';');
        } else {
            assert(line.last() == cmd.last());
        }
    }
    assert(strip_cr(line) == line);
    assert(lines(content.skip(line.len() as int + 1)) == Seq::<Seq<char>>::empty());
    assert(lines(content) =~= seq![line]);
    assert(seq![line].drop_last() =~= Seq::<Seq<char>>::empty());
    assert(seq![line].last() == line);
    assert(zsh_scan(Seq::<Seq<char>>::empty()) == (Seq::<Seq<char>>::empty(), Seq::<char>::empty()));
    assert(Seq::<Seq<char>>::empty().push(cmd) =~= seq![cmd]);
    assert(zsh_step(Seq::<Seq<char>>::empty(), Seq::<char>::empty(), line) == (seq![cmd], Seq::<char>::empty()));
    assert(zsh_scan(seq![line]) == (seq![cmd], Seq::<char>::empty()));
    assert(seq![cmd].map_values(|c: Seq<char>| trim(c)) =~= seq![trim(cmd)]);
}

/// A reload reads the file as the first load does, in the store's own
/// shell format, and then leaves the deleted commands out.
pub proof fn law_reload_is_load_without_deleted(
    shell_type: Seq<char>,
    content: Seq<char>,
    mtime: i64,
    deleted: Set<Seq<char>>,
    command: Seq<char>,
)
    ensures
        reloaded(shell_type, content, mtime, deleted).contains_key(command) <==> (
            tally(history_commands(shell_type, content), mtime).contains_key(command)
                && !deleted.contains(command)),
        reloaded(shell_type, content, mtime, deleted).contains_key(command) ==> reloaded(
            shell_type,
            content,
            mtime,
            deleted,
        )[command] == tally(history_commands(shell_type, content), mtime)[command],
        reloaded(shell_type, content, mtime, Set::empty()) == tally(
            history_commands(shell_type, content),
            mtime,
        ),
{
    assert(tally(history_commands(shell_type, content), mtime).remove_keys(Set::empty()) =~= tally(
        history_commands(shell_type, content),
        mtime,
    ));
}

} // verus!
