//! What to demote and what to leave alone.
//!
//! Nothing here is a list of known program names: what runs **now** is
//! measured, everything protected is set aside, and the heaviest of the rest
//! is demoted.

use vstd::prelude::*;

use std::collections::HashMap;

use crate::config::Power;
use crate::protect::{protection_for, protection_of, reason_text, Protection};
use crate::sys::ProcessUsage;
use crate::text::{
    eq_ignore_ascii_case, lemma_seq_lt_asymmetric, lemma_seq_lt_irreflexive, lemma_seq_lt_total,
    lemma_seq_lt_transitive, owned, same_ignoring_ascii_case, same_text, seq_lt, text_lt, texts,
};

verus! {

#[derive(Debug, Clone, PartialEq, Eq)]
pub struct Target {
    pub pid: u32,
    pub name: String,
    pub working_set: u64,
    /// Named by the user in `extra_throttle`: demoted although it is not
    /// among the heaviest.
    pub forced: bool,
}

pub struct TargetView {
    pub pid: u32,
    pub name: Seq<char>,
    pub working_set: u64,
    pub forced: bool,
}

impl View for Target {
    type V = TargetView;

    open spec fn view(&self) -> TargetView {
        TargetView { pid: self.pid, name: self.name@, working_set: self.working_set, forced: self.forced }
    }
}

#[derive(Debug, Clone, PartialEq, Eq)]
pub struct Untouched {
    pub name: String,
    pub reason: String,
}

pub struct UntouchedView {
    pub name: Seq<char>,
    pub reason: Seq<char>,
}

impl View for Untouched {
    type V = UntouchedView;

    open spec fn view(&self) -> UntouchedView {
        UntouchedView { name: self.name@, reason: self.reason@ }
    }
}

#[derive(Debug, Clone, PartialEq, Eq)]
pub struct Selection {
    pub targets: Vec<Target>,
    /// The processes that were respected, one line per name (there are
    /// forty `svchost` and the report needs one).
    pub untouched: Vec<Untouched>,
}

pub open spec fn target_views(v: Seq<Target>) -> Seq<TargetView> {
    v.map_values(|t: Target| t@)
}

pub open spec fn untouched_views(v: Seq<Untouched>) -> Seq<UntouchedView> {
    v.map_values(|u: Untouched| u@)
}

impl Default for Selection {
    fn default() -> (s: Selection)
        ensures
            s.targets@.len() == 0,
            s.untouched@.len() == 0,
    {
        Selection { targets: Vec::new(), untouched: Vec::new() }
    }
}

/// The respected list after noting `name`: unchanged when a name equal to
/// it (ASCII case aside) is there already.
pub open spec fn noted(u: Seq<UntouchedView>, name: Seq<char>, reason: Seq<char>) -> Seq<UntouchedView> {
    if exists|k: int| 0 <= k < u.len() && same_ignoring_ascii_case((#[trigger] u[k]).name, name) {
        u
    } else {
        u.push(UntouchedView { name, reason })
    }
}

/// The memory of a list of targets, added up.
pub open spec fn working_set_sum(t: Seq<TargetView>) -> nat
    decreases t.len(),
{
    if t.len() == 0 {
        0
    } else {
        working_set_sum(t.drop_last()) + t.last().working_set as nat
    }
}

impl Selection {
    fn note_untouched(&mut self, name: &str, protection: &Protection)
        ensures
            untouched_views(final(self).untouched@) == noted(
                untouched_views(old(self).untouched@),
                name@,
                reason_text(protection@),
            ),
            final(self).targets@ == old(self).targets@,
    {
        let ghost u = untouched_views(self.untouched@);
        let mut k: usize = 0;
        while k < self.untouched.len()
            invariant
                k <= self.untouched.len(),
                u == untouched_views(self.untouched@),
                forall|j: int| 0 <= j < k ==> !same_ignoring_ascii_case(#[trigger] u[j].name, name@),
            decreases self.untouched.len() - k,
        {
            assert(u[k as int] == self.untouched@[k as int]@);
            if eq_ignore_ascii_case(self.untouched[k].name.as_str(), name) {
                return;
            }
            k += 1;
        }
        let reason = protection.reason();
        self.untouched.push(Untouched { name: owned(name), reason });
        assert(untouched_views(self.untouched@) =~= u.push(UntouchedView { name: name@, reason: reason_text(protection@) }));
    }

    /// Memory of the chosen processes, added up.
    pub fn total_working_set(&self) -> (r: u64)
        requires
            working_set_sum(target_views(self.targets@)) <= u64::MAX,
        ensures
            r == working_set_sum(target_views(self.targets@)),
    {
        let ghost t = target_views(self.targets@);
        let mut total: u64 = 0;
        let mut i: usize = 0;
        while i < self.targets.len()
            invariant
                i <= self.targets.len(),
                t == target_views(self.targets@),
                working_set_sum(t) <= u64::MAX,
                total == working_set_sum(t.take(i as int)),
            decreases self.targets.len() - i,
        {
            assert(t.take(i + 1).drop_last() == t.take(i as int));
            proof {
                lemma_working_set_sum_prefix(t, i + 1);
            }
            total = total + self.targets[i].working_set;
            i += 1;
        }
        assert(t.take(self.targets.len() as int) == t);
        total
    }
}

proof fn lemma_working_set_sum_prefix(t: Seq<TargetView>, i: int)
    requires
        0 <= i <= t.len(),
    ensures
        working_set_sum(t.take(i)) <= working_set_sum(t),
    decreases t.len(),
{
    if i == t.len() {
        assert(t.take(i) == t);
    } else {
        lemma_working_set_sum_prefix(t.drop_last(), i);
        assert(t.drop_last().take(i) == t.take(i));
    }
}

/// Parent of each pid; a pid listed twice keeps the last parent seen.
pub open spec fn parent_map(ps: Seq<ProcessUsage>) -> Map<u32, u32>
    decreases ps.len(),
{
    if ps.len() == 0 {
        Map::empty()
    } else {
        parent_map(ps.drop_last()).insert(ps.last().pid, ps.last().parent_pid)
    }
}

/// Climbing at most `fuel` links of the parent chain from `current`
/// reaches `game`. The climb stops at an unknown parent, at parent 0 and at
/// a process that is its own parent.
pub open spec fn reaches_game(parents: Map<u32, u32>, current: u32, game: u32, fuel: nat) -> bool
    decreases fuel,
{
    if fuel == 0 {
        false
    } else if current == game {
        true
    } else if parents.contains_key(current) && parents[current] != 0 && parents[current] != current {
        reaches_game(parents, parents[current], game, (fuel - 1) as nat)
    } else {
        false
    }
}

/// How far up the parent chain the game is looked for. A corrupt chain or
/// a recycled pid must not make the climb endless.
pub const MAX_ANCESTRY: u32 = 16;

/// Climbs the parent chain of `pid` looking for `game_pid`: not only the
/// launched process is protected, also its children (a launcher that starts
/// the real game as a child is the rule, not the exception).
fn is_game_or_descendant(pid: u32, game_pid: u32, parents: &HashMap<u32, u32>) -> (r: bool)
    ensures
        r == reaches_game(parents@, pid, game_pid, MAX_ANCESTRY as nat),
{
    broadcast use vstd::std_specs::hash::group_hash_axioms;

    let mut current = pid;
    let mut step: u32 = 0;
    while step < MAX_ANCESTRY
        invariant
            step <= MAX_ANCESTRY,
            reaches_game(parents@, pid, game_pid, MAX_ANCESTRY as nat) == reaches_game(
                parents@,
                current,
                game_pid,
                (MAX_ANCESTRY - step) as nat,
            ),
        decreases MAX_ANCESTRY - step,
    {
        if current == game_pid {
            return true;
        }
        match parents.get(&current) {
            Some(parent) => {
                let parent = *parent;
                if parent != 0 && parent != current {
                    current = parent;
                } else {
                    return false;
                }
            },
            None => {
                return false;
            },
        }
        step += 1;
    }
    false
}

/// What becomes of one process.
pub enum Fate {
    /// Pid 0 is not a process.
    Skip,
    /// Respected, with the reason.
    Keep(Seq<char>),
    /// Demoted because the user asked for it.
    Force,
    /// Takes part in the ranking by memory.
    Rank,
    /// Too light to matter.
    Ignore,
}

pub open spec fn is_forced(config: Power, name: Seq<char>) -> bool {
    exists|i: int|
        0 <= i < config.extra_throttle@.len() && same_ignoring_ascii_case(
            #[trigger] texts(config.extra_throttle@)[i],
            name,
        )
}

/// Bytes from which a process takes part in the ranking.
pub open spec fn threshold_of(config: Power) -> int {
    config.auto_throttle_min_mb * 1048576
}

pub open spec fn fate(
    p: ProcessUsage,
    config: Power,
    self_pid: u32,
    game_pid: Option<u32>,
    parents: Map<u32, u32>,
) -> Fate {
    if p.pid == 0 {
        Fate::Skip
    } else if p.pid == self_pid {
        Fate::Keep("es el propio modo juego"@)
    } else if game_pid matches Some(g) && reaches_game(parents, p.pid, g, MAX_ANCESTRY as nat) {
        Fate::Keep("es el juego en marcha"@)
    } else if protection_of(
        p.name@,
        texts(config.protected_processes@),
        config.protect_handheld_helpers,
    ) is Some {
        Fate::Keep(
            reason_text(
                protection_of(
                    p.name@,
                    texts(config.protected_processes@),
                    config.protect_handheld_helpers,
                )->0,
            ),
        )
    } else if is_forced(config, p.name@) {
        Fate::Force
    } else if config.auto_throttle && p.working_set >= threshold_of(config) {
        Fate::Rank
    } else {
        Fate::Ignore
    }
}

pub open spec fn target_of(p: ProcessUsage, forced: bool) -> TargetView {
    TargetView { pid: p.pid, name: p.name@, working_set: p.working_set, forced }
}

/// The forced targets and the respected list, after going through the
/// processes in order.
pub open spec fn first_pass(
    ps: Seq<ProcessUsage>,
    config: Power,
    self_pid: u32,
    game_pid: Option<u32>,
    parents: Map<u32, u32>,
) -> (Seq<TargetView>, Seq<UntouchedView>)
    decreases ps.len(),
{
    if ps.len() == 0 {
        (seq![], seq![])
    } else {
        let prev = first_pass(ps.drop_last(), config, self_pid, game_pid, parents);
        let p = ps.last();
        match fate(p, config, self_pid, game_pid, parents) {
            Fate::Keep(reason) => (prev.0, noted(prev.1, p.name@, reason)),
            Fate::Force => (prev.0.push(target_of(p, true)), prev.1),
            _ => prev,
        }
    }
}

/// Process `a` ranks before process `b`: more memory first; on a tie, by
/// name; on a tie again, by position (the sort is stable).
pub open spec fn ranks_before(ps: Seq<ProcessUsage>, a: int, b: int) -> bool {
    ||| ps[a].working_set > ps[b].working_set
    ||| ps[a].working_set == ps[b].working_set && seq_lt(ps[a].name@, ps[b].name@)
    ||| ps[a].working_set == ps[b].working_set && ps[a].name@ == ps[b].name@ && a < b
}

pub open spec fn is_ranked(
    ps: Seq<ProcessUsage>,
    config: Power,
    self_pid: u32,
    game_pid: Option<u32>,
    j: int,
) -> bool {
    fate(ps[j], config, self_pid, game_pid, parent_map(ps)) is Rank
}

/// How many processes take part in the ranking.
pub open spec fn ranked_count(
    ps: Seq<ProcessUsage>,
    config: Power,
    self_pid: u32,
    game_pid: Option<u32>,
    parents: Map<u32, u32>,
) -> nat
    decreases ps.len(),
{
    if ps.len() == 0 {
        0
    } else {
        ranked_count(ps.drop_last(), config, self_pid, game_pid, parents) + if fate(
            ps.last(),
            config,
            self_pid,
            game_pid,
            parents,
        ) is Rank {
            1nat
        } else {
            0nat
        }
    }
}

/// `r` lists, heaviest first, the processes that win a place in the
/// ranking: as many as there are places, and none left out that ranks
/// before one taken.
pub open spec fn ranking_winners(
    ps: Seq<ProcessUsage>,
    config: Power,
    self_pid: u32,
    game_pid: Option<u32>,
    r: Seq<int>,
) -> bool {
    let count = ranked_count(ps, config, self_pid, game_pid, parent_map(ps));
    &&& r.len() == (if count <= config.auto_throttle_max {
        count
    } else {
        config.auto_throttle_max as nat
    })
    &&& forall|i: int| 0 <= i < r.len() ==> 0 <= #[trigger] r[i] < ps.len()
    &&& forall|i: int| 0 <= i < r.len() ==> is_ranked(ps, config, self_pid, game_pid, #[trigger] r[i])
    &&& forall|i: int, k: int| 0 <= i < k < r.len() ==> ranks_before(ps, #[trigger] r[i], #[trigger] r[k])
    &&& forall|j: int|
        0 <= j < ps.len() && is_ranked(ps, config, self_pid, game_pid, j) && !r.contains(j) ==> forall|
            i: int,
        |
            0 <= i < r.len() ==> ranks_before(ps, #[trigger] r[i], j)
}

pub proof fn lemma_ranks_before_total(ps: Seq<ProcessUsage>, a: int, b: int)
    requires
        a != b,
    ensures
        ranks_before(ps, a, b) || ranks_before(ps, b, a),
{
    lemma_seq_lt_total(ps[a].name@, ps[b].name@);
}

pub proof fn lemma_ranks_before_transitive(ps: Seq<ProcessUsage>, a: int, b: int, c: int)
    requires
        ranks_before(ps, a, b),
        ranks_before(ps, b, c),
    ensures
        ranks_before(ps, a, c),
{
    let (na, nb, nc) = (ps[a].name@, ps[b].name@, ps[c].name@);
    if seq_lt(na, nb) && seq_lt(nb, nc) {
        lemma_seq_lt_transitive(na, nb, nc);
    }
}

pub proof fn lemma_ranks_before_asymmetric(ps: Seq<ProcessUsage>, a: int, b: int)
    requires
        ranks_before(ps, a, b),
    ensures
        !ranks_before(ps, b, a),
{
    let (na, nb) = (ps[a].name@, ps[b].name@);
    if seq_lt(na, nb) {
        lemma_seq_lt_asymmetric(na, nb);
    }
    if na == nb {
        lemma_seq_lt_irreflexive(na);
    }
}

pub(crate) fn ranks_before_at(ps: &[ProcessUsage], a: usize, b: usize) -> (r: bool)
    requires
        a < ps.len(),
        b < ps.len(),
    ensures
        r == ranks_before(ps@, a as int, b as int),
{
    let pa = &ps[a];
    let pb = &ps[b];
    if pa.working_set > pb.working_set {
        return true;
    }
    if pa.working_set != pb.working_set {
        return false;
    }
    if text_lt(pa.name.as_str(), pb.name.as_str()) {
        return true;
    }
    same_text(pa.name.as_str(), pb.name.as_str()) && a < b
}

fn parents_of(ps: &[ProcessUsage]) -> (m: HashMap<u32, u32>)
    ensures
        m@ == parent_map(ps@),
{
    broadcast use vstd::std_specs::hash::group_hash_axioms;

    let mut m: HashMap<u32, u32> = HashMap::new();
    let mut i: usize = 0;
    while i < ps.len()
        invariant
            i <= ps.len(),
            m@ == parent_map(ps@.take(i as int)),
        decreases ps.len() - i,
    {
        assert(ps@.take(i + 1).drop_last() == ps@.take(i as int));
        m.insert(ps[i].pid, ps[i].parent_pid);
        i += 1;
    }
    assert(ps@.take(ps.len() as int) == ps@);
    m
}

fn is_forced_name(extra: &Vec<String>, name: &str) -> (r: bool)
    ensures
        r == exists|i: int|
            0 <= i < extra@.len() && same_ignoring_ascii_case(#[trigger] texts(extra@)[i], name@),
{
    let mut i: usize = 0;
    while i < extra.len()
        invariant
            i <= extra.len(),
            forall|j: int| 0 <= j < i ==> !same_ignoring_ascii_case(#[trigger] texts(extra@)[j], name@),
        decreases extra.len() - i,
    {
        assert(texts(extra@)[i as int] == extra@[i as int]@);
        if eq_ignore_ascii_case(extra[i].as_str(), name) {
            return true;
        }
        i += 1;
    }
    false
}

/// Inserts `j` into the ranking `r`, kept in ranking order.
pub(crate) fn insert_ranked(ps: &[ProcessUsage], r: &mut Vec<usize>, j: usize)
    requires
        j < ps.len(),
        forall|i: int| 0 <= i < old(r)@.len() ==> old(r)@[i] < j,
        forall|i: int, k: int|
            0 <= i < k < old(r)@.len() ==> ranks_before(ps@, old(r)@[i] as int, old(r)@[k] as int),
    ensures
        final(r)@.len() == old(r)@.len() + 1,
        forall|i: int| 0 <= i < final(r)@.len() ==> final(r)@[i] <= j,
        forall|x: usize| final(r)@.contains(x) <==> (old(r)@.contains(x) || x == j),
        forall|i: int, k: int|
            0 <= i < k < final(r)@.len() ==> ranks_before(
                ps@,
                final(r)@[i] as int,
                final(r)@[k] as int,
            ),
{
    let ghost old_r = r@;
    let mut p: usize = 0;
    while p < r.len() && !ranks_before_at(ps, j, r[p])
        invariant
            p <= r.len(),
            r@ == old_r,
            j < ps.len(),
            forall|i: int| 0 <= i < r@.len() ==> r@[i] < j,
            forall|i: int| 0 <= i < p ==> !ranks_before(ps@, j as int, r@[i] as int),
        decreases r.len() - p,
    {
        p += 1;
    }
    proof {
        assert forall|i: int| 0 <= i < p implies ranks_before(ps@, r@[i] as int, j as int) by {
            lemma_ranks_before_total(ps@, r@[i] as int, j as int);
        }
        assert forall|k: int| p <= k < r@.len() implies ranks_before(ps@, j as int, r@[k] as int) by {
            if k > p {
                lemma_ranks_before_transitive(ps@, j as int, r@[p as int] as int, r@[k] as int);
            }
        }
    }
    r.insert(p, j);
    proof {
        assert forall|i: int, k: int| 0 <= i < k < r@.len() implies ranks_before(
            ps@,
            r@[i] as int,
            r@[k] as int,
        ) by {
            if k < p {
                assert(r@[i] == old_r[i] && r@[k] == old_r[k]);
            } else if k == p {
                assert(r@[i] == old_r[i]);
            } else if i < p {
                assert(r@[i] == old_r[i] && r@[k] == old_r[k - 1]);
                lemma_ranks_before_transitive(ps@, r@[i] as int, j as int, r@[k] as int);
            } else if i == p {
                assert(r@[k] == old_r[k - 1]);
            } else {
                assert(r@[i] == old_r[i - 1] && r@[k] == old_r[k - 1]);
            }
        }
        assert forall|x: usize| r@.contains(x) <==> (old_r.contains(x) || x == j) by {
            if old_r.contains(x) {
                let i0 = choose|i: int| 0 <= i < old_r.len() && old_r[i] == x;
                if i0 < p {
                    assert(r@[i0] == x);
                } else {
                    assert(r@[i0 + 1] == x);
                }
            }
            if x == j {
                assert(r@[p as int] == j);
            }
            if r@.contains(x) {
                let i0 = choose|i: int| 0 <= i < r@.len() && r@[i] == x;
                if i0 < p {
                    assert(old_r[i0] == x);
                } else if i0 > p {
                    assert(old_r[i0 - 1] == x);
                }
            }
        }
        assert forall|i: int| 0 <= i < r@.len() implies r@[i] <= j by {
            if i < p {
                assert(r@[i] == old_r[i]);
            } else if i > p {
                assert(r@[i] == old_r[i - 1]);
            }
        }
    }
}

/// `s` is what the choice gives for these processes: the respected list of
/// the first pass, and the forced targets followed by the winners of the
/// ranking.
pub open spec fn is_selection_for(
    s: Selection,
    ps: Seq<ProcessUsage>,
    config: Power,
    self_pid: u32,
    game_pid: Option<u32>,
) -> bool {
    &&& untouched_views(s.untouched@) == first_pass(ps, config, self_pid, game_pid, parent_map(ps)).1
    &&& exists|r: Seq<int>|
        #[trigger] ranking_winners(ps, config, self_pid, game_pid, r) && target_views(s.targets@)
            == first_pass(ps, config, self_pid, game_pid, parent_map(ps)).0 + r.map_values(
            |j: int| target_of(ps[j], false),
        )
}

/// Chooses the processes to demote.
///
/// The process of the shell itself and the game (with every process below
/// it in the parent chain) are never chosen; neither is anything protected.
/// Processes named in `extra_throttle` come first, however light, in the
/// order they were met, and take none of the places; then, when measuring
/// is on, the heaviest of the rest from `auto_throttle_min_mb` up, at most
/// `auto_throttle_max` of them.
pub fn select_throttle_targets(
    processes: &[ProcessUsage],
    config: &Power,
    self_pid: u32,
    game_pid: Option<u32>,
) -> (s: Selection)
    requires
        threshold_of(*config) <= u64::MAX,
    ensures
        is_selection_for(s, processes@, *config, self_pid, game_pid),
{
    let ghost ps = processes@;
    let ghost pm = parent_map(ps);
    let mut selection = Selection::default();
    let threshold: u64 = config.auto_throttle_min_mb * 1024 * 1024;
    let parents = parents_of(processes);
    let mut ranked: Vec<usize> = Vec::new();
    let mut i: usize = 0;
    assert(target_views(selection.targets@) =~= seq![]);
    assert(untouched_views(selection.untouched@) =~= seq![]);
    while i < processes.len()
        invariant
            i <= processes.len(),
            ps == processes@,
            pm == parent_map(ps),
            parents@ == pm,
            threshold == threshold_of(*config),
            (target_views(selection.targets@), untouched_views(selection.untouched@)) == first_pass(
                ps.take(i as int),
                *config,
                self_pid,
                game_pid,
                pm,
            ),
            ranked@.len() == ranked_count(ps.take(i as int), *config, self_pid, game_pid, pm),
            forall|k: int| 0 <= k < ranked@.len() ==> ranked@[k] < i,
            forall|j: usize|
                ranked@.contains(j) <==> (j < i && is_ranked(ps, *config, self_pid, game_pid, j as int)),
            forall|a: int, b: int|
                0 <= a < b < ranked@.len() ==> ranks_before(ps, ranked@[a] as int, ranked@[b] as int),
        decreases processes.len() - i,
    {
        let p = &processes[i];
        let ghost f = fate(ps[i as int], *config, self_pid, game_pid, pm);
        let ghost before = first_pass(ps.take(i as int), *config, self_pid, game_pid, pm);
        let ghost old_ranked = ranked@;
        assert(ps.take(i + 1).drop_last() == ps.take(i as int));
        assert(ps.take(i + 1).last() == ps[i as int]);
        let mut ranked_now = false;
        if p.pid == 0 {
        } else if p.pid == self_pid {
            selection.note_untouched(p.name.as_str(), &Protection::Own(owned("es el propio modo juego")));
        } else if match game_pid {
            Some(g) => is_game_or_descendant(p.pid, g, &parents),
            None => false,
        } {
            selection.note_untouched(p.name.as_str(), &Protection::Own(owned("es el juego en marcha")));
        } else {
            match protection_for(
                p.name.as_str(),
                config.protected_processes.as_slice(),
                config.protect_handheld_helpers,
            ) {
                Some(protection) => {
                    selection.note_untouched(p.name.as_str(), &protection);
                },
                None => {
                    if is_forced_name(&config.extra_throttle, p.name.as_str()) {
                        selection.targets.push(
                            Target {
                                pid: p.pid,
                                name: owned(p.name.as_str()),
                                working_set: p.working_set,
                                forced: true,
                            },
                        );
                        assert(target_views(selection.targets@) =~= before.0.push(target_of(ps[i as int], true)));
                    } else if config.auto_throttle && p.working_set >= threshold {
                        insert_ranked(processes, &mut ranked, i);
                        ranked_now = true;
                    }
                },
            }
        }
        proof {
            assert(ranked_now <==> f is Rank);
            assert(is_ranked(ps, *config, self_pid, game_pid, i as int) <==> f is Rank);
            if !ranked_now {
                assert(ranked@ == old_ranked);
            }
            assert forall|j: usize|
                ranked@.contains(j) <==> (j < i + 1 && is_ranked(
                    ps,
                    *config,
                    self_pid,
                    game_pid,
                    j as int,
                )) by {
                if j == i {
                    if !ranked_now {
                        if ranked@.contains(j) {
                            let k = choose|k: int| 0 <= k < ranked@.len() && ranked@[k] == j;
                            assert(old_ranked[k] < i);
                        }
                    }
                }
            }
        }
        i += 1;
    }
    assert(ps.take(processes.len() as int) == ps);
    let keep: usize = if ranked.len() <= config.auto_throttle_max {
        ranked.len()
    } else {
        config.auto_throttle_max
    };
    let ghost forced_part = target_views(selection.targets@);
    let ghost r: Seq<int> = ranked@.take(keep as int).map_values(|x: usize| x as int);
    let mut k: usize = 0;
    while k < keep
        invariant
            k <= keep <= ranked.len(),
            ps == processes@,
            forall|a: int| 0 <= a < ranked@.len() ==> ranked@[a] < ps.len(),
            r == ranked@.take(keep as int).map_values(|x: usize| x as int),
            untouched_views(selection.untouched@) == first_pass(ps, *config, self_pid, game_pid, pm).1,
            target_views(selection.targets@) == forced_part + r.take(k as int).map_values(
                |j: int| target_of(ps[j], false),
            ),
        decreases keep - k,
    {
        let j = ranked[k];
        let q = &processes[j];
        let ghost old_tv = target_views(selection.targets@);
        selection.targets.push(
            Target { pid: q.pid, name: owned(q.name.as_str()), working_set: q.working_set, forced: false },
        );
        assert(target_views(selection.targets@) =~= old_tv.push(target_of(ps[j as int], false)));
        assert(r[k as int] == j as int);
        assert(r.take(k + 1).map_values(|j: int| target_of(ps[j], false)) =~= r.take(
            k as int,
        ).map_values(|j: int| target_of(ps[j], false)).push(target_of(ps[j as int], false)));
        assert(target_views(selection.targets@) =~= forced_part + r.take(k + 1).map_values(
            |j: int| target_of(ps[j], false),
        ));
        k += 1;
    }
    proof {
        assert(r.take(keep as int) == r);
        assert forall|a: int| 0 <= a < r.len() implies is_ranked(
            ps,
            *config,
            self_pid,
            game_pid,
            #[trigger] r[a],
        ) by {
            assert(ranked@.contains(ranked@[a]));
        }
        assert forall|j: int|
            0 <= j < ps.len() && is_ranked(ps, *config, self_pid, game_pid, j) && !r.contains(
                j,
            ) implies forall|a: int| 0 <= a < r.len() ==> ranks_before(ps, #[trigger] r[a], j) by {
            assert(ranked@.contains(j as usize));
            let pos = choose|pos: int| 0 <= pos < ranked@.len() && ranked@[pos] == j as usize;
            if pos < keep {
                assert(r[pos] == j);
            }
        }
        assert(ranking_winners(ps, *config, self_pid, game_pid, r));
    }
    selection
}

/// The heaviest are chosen: after the forced targets, a selection takes
/// only processes that take part in the ranking, at most
/// `auto_throttle_max` of them (all of them when fewer take part), heaviest
/// first; every one left out of the ranking's places uses no more memory
/// than any one taken.
pub proof fn lemma_heaviest_chosen(
    s: Selection,
    ps: Seq<ProcessUsage>,
    config: Power,
    self_pid: u32,
    game_pid: Option<u32>,
)
    requires
        is_selection_for(s, ps, config, self_pid, game_pid),
    ensures
        exists|r: Seq<int>|
            {
                &&& target_views(s.targets@) == first_pass(ps, config, self_pid, game_pid, parent_map(ps)).0
                    + r.map_values(|j: int| target_of(ps[j], false))
                &&& r.len() == (if ranked_count(ps, config, self_pid, game_pid, parent_map(ps))
                    <= config.auto_throttle_max {
                    ranked_count(ps, config, self_pid, game_pid, parent_map(ps))
                } else {
                    config.auto_throttle_max as nat
                })
                &&& forall|i: int| 0 <= i < r.len() ==> 0 <= #[trigger] r[i] < ps.len() && is_ranked(
                    ps,
                    config,
                    self_pid,
                    game_pid,
                    r[i],
                )
                &&& forall|i: int, k: int|
                    0 <= i < k < r.len() ==> ps[#[trigger] r[i]].working_set >= ps[#[trigger] r[k]].working_set
                &&& forall|j: int, i: int|
                    0 <= j < ps.len() && is_ranked(ps, config, self_pid, game_pid, j) && !r.contains(j) && 0 <= i
                        < r.len() ==> ps[#[trigger] r[i]].working_set >= #[trigger] ps[j].working_set
            },
{
    let r = choose|r: Seq<int>|
        #[trigger] ranking_winners(ps, config, self_pid, game_pid, r) && target_views(s.targets@) == first_pass(
            ps,
            config,
            self_pid,
            game_pid,
            parent_map(ps),
        ).0 + r.map_values(|j: int| target_of(ps[j], false));
    assert forall|i: int, k: int| 0 <= i < k < r.len() implies ps[#[trigger] r[i]].working_set
        >= ps[#[trigger] r[k]].working_set by {
        assert(ranks_before(ps, r[i], r[k]));
    }
    assert forall|j: int, i: int|
        0 <= j < ps.len() && is_ranked(ps, config, self_pid, game_pid, j) && !r.contains(j) && 0 <= i < r.len()
            implies ps[#[trigger] r[i]].working_set >= #[trigger] ps[j].working_set by {
        assert(ranks_before(ps, r[i], j));
    }
}

/// The shell itself and the running game are always respected, never
/// demoted.
pub proof fn lemma_shell_and_game_respected(
    ps: Seq<ProcessUsage>,
    config: Power,
    self_pid: u32,
    game_pid: Option<u32>,
    j: int,
)
    requires
        0 <= j < ps.len(),
        ps[j].pid != 0,
        ps[j].pid == self_pid || game_pid == Some(ps[j].pid),
    ensures
        fate(ps[j], config, self_pid, game_pid, parent_map(ps)) is Keep,
{
}

/// A protected process is respected, whatever else the settings say about
/// it (protecting wins over `extra_throttle`).
pub proof fn lemma_protected_respected(
    ps: Seq<ProcessUsage>,
    config: Power,
    self_pid: u32,
    game_pid: Option<u32>,
    j: int,
)
    requires
        0 <= j < ps.len(),
        ps[j].pid != 0,
        protection_of(ps[j].name@, texts(config.protected_processes@), config.protect_handheld_helpers)
            is Some,
    ensures
        fate(ps[j], config, self_pid, game_pid, parent_map(ps)) is Keep,
{
}

/// The respected list never repeats a name (ASCII case aside).
pub proof fn lemma_respected_names_distinct(
    ps: Seq<ProcessUsage>,
    config: Power,
    self_pid: u32,
    game_pid: Option<u32>,
    parents: Map<u32, u32>,
)
    ensures
        forall|a: int, b: int|
            0 <= a < b < first_pass(ps, config, self_pid, game_pid, parents).1.len()
                ==> !same_ignoring_ascii_case(
                first_pass(ps, config, self_pid, game_pid, parents).1[a].name,
                first_pass(ps, config, self_pid, game_pid, parents).1[b].name,
            ),
    decreases ps.len(),
{
    if ps.len() > 0 {
        lemma_respected_names_distinct(ps.drop_last(), config, self_pid, game_pid, parents);
        let u = first_pass(ps.drop_last(), config, self_pid, game_pid, parents).1;
        let u2 = first_pass(ps, config, self_pid, game_pid, parents).1;
        assert forall|a: int, b: int| 0 <= a < b < u2.len() implies !same_ignoring_ascii_case(
            u2[a].name,
            u2[b].name,
        ) by {
            if b == u.len() && u2.len() > u.len() {
                assert(u2[a] == u[a]);
                if same_ignoring_ascii_case(u2[a].name, u2[b].name) {
                    assert(same_ignoring_ascii_case(u[a].name, u2[b].name)) by {
                        lemma_same_ignoring_case_symmetric(u2[a].name, u2[b].name);
                    }
                }
            }
        }
    }
}

proof fn lemma_same_ignoring_case_symmetric(a: Seq<char>, b: Seq<char>)
    requires
        same_ignoring_ascii_case(a, b),
    ensures
        same_ignoring_ascii_case(b, a),
{
}

} // verus!
