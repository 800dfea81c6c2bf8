//! Laws of a sync of the firewall: the scripts, the document and the actions, written out.

use vstd::prelude::*;

use crate::common::ipfamily::IpFamily;
use crate::netpol::controller::{
    action_views, family_actions, next_step, ActionView, FirewallController, PolicyWorld,
    SyncAction, SyncError, SyncStep,
};
use crate::netpol::ipset::{restore_lines, script, SetType};
use crate::netpol::iptables::{check_jump_words, filter_lines, insert_jump_words};
use crate::netpol::synth::{IpsetPlan, Scene};

verus! {

/// The word for a type of set.
pub open spec fn type_word(t: SetType) -> Seq<char> {
    if t == SetType::HashIp {
        "hash:ip"@
    } else {
        "hash:net"@
    }
}

/// The word for a family.
pub open spec fn inet_word(family: IpFamily) -> Seq<char> {
    if family == IpFamily::V4 {
        "inet"@
    } else {
        "inet6"@
    }
}

/// The script that replaces the contents of a set, line by line: both the set and its temporary
/// are made where they are not there, of the type and family; the temporary is emptied, is given
/// every entry in order, takes the place of the set, and is dropped.
pub proof fn lemma_set_script_written_out(
    set: Seq<char>,
    set_type: SetType,
    family: IpFamily,
    entries: Seq<Seq<char>>,
)
    ensures
        ({
            let lines = restore_lines(set, set_type, family, entries);
            let tmp = "TMP-"@ + set;
            let n = entries.len() as int;
            &&& lines.len() == n + 5
            &&& lines[0] == "create "@ + set + " "@ + type_word(set_type) + " family "@ + inet_word(
                family,
            ) + " -exist\n"@
            &&& lines[1] == "create "@ + tmp + " "@ + type_word(set_type) + " family "@ + inet_word(
                family,
            ) + " -exist\n"@
            &&& lines[2] == "flush "@ + tmp + "\n"@
            &&& forall|i: int|
                0 <= i < n ==> #[trigger] lines[3 + i] == "add "@ + tmp + " "@ + entries[i]
                    + " -exist\n"@
            &&& lines[3 + n] == "swap "@ + tmp + " "@ + set + "\n"@
            &&& lines[4 + n] == "destroy "@ + tmp + "\n"@
        }),
{
}

/// A script is its lines one after the other.
pub proof fn lemma_script_adds_up(a: Seq<Seq<char>>, b: Seq<Seq<char>>, line: Seq<char>)
    ensures
        script(Seq::empty()) == Seq::<char>::empty(),
        script(seq![line]) == line,
        script(a + b) == script(a) + script(b),
{
    let f = |l: Seq<char>| l;
    crate::seqs::lemma_flat_parts(a, b, line, f);
}

/// The filter-table document, line by line: the table, every declaration, every rule, the commit.
pub proof fn lemma_document_written_out(decls: Seq<Seq<char>>, rules: Seq<Seq<char>>)
    ensures
        ({
            let lines = filter_lines(decls, rules);
            let n = decls.len() as int;
            let m = rules.len() as int;
            &&& lines.len() == n + m + 2
            &&& lines[0] == "*filter\n"@
            &&& forall|i: int| 0 <= i < n ==> #[trigger] lines[1 + i] == decls[i] + seq!['\n']
            &&& forall|i: int| 0 <= i < m ==> #[trigger] lines[1 + n + i] == rules[i] + seq!['\n']
            &&& lines[1 + n + m] == "COMMIT\n"@
        }),
{
    let lines = filter_lines(decls, rules);
    let n = decls.len() as int;
    assert forall|i: int| 0 <= i < n implies #[trigger] lines[1 + i] == decls[i] + seq!['\n'] by {
        assert(decls[i].push('\n') =~= decls[i] + seq!['\n']);
    }
    assert forall|i: int| 0 <= i < rules.len() implies #[trigger] lines[1 + n + i] == rules[i]
        + seq!['\n'] by {
        assert(rules[i].push('\n') =~= rules[i] + seq!['\n']);
    }
}

/// What is done for one family, one by one: the script of every set, in order; then the document;
/// then the jumps from the three built-in chains.
pub proof fn lemma_actions_written_out(sc: Scene)
    ensures
        ({
            let acts = family_actions(sc);
            let sets = sc.sets();
            let n = sets.len() as int;
            &&& acts.len() == n + 4
            &&& forall|i: int|
                0 <= i < n ==> #[trigger] acts[i] == ActionView::RestoreSet(
                    script(
                        restore_lines(
                            sets[i].name,
                            sets[i].set_type,
                            sets[i].family,
                            sets[i].entries,
                        ),
                    ),
                )
            &&& acts[n] == ActionView::RestoreFilter(
                sc.family,
                script(filter_lines(sc.decls(), sc.rules())),
            )
            &&& acts[n + 1] == ActionView::EnsureJump(sc.family, "INPUT"@, "KUBE-ROUTER-INPUT"@)
            &&& acts[n + 2] == ActionView::EnsureJump(
                sc.family,
                "FORWARD"@,
                "KUBE-ROUTER-FORWARD"@,
            )
            &&& acts[n + 3] == ActionView::EnsureJump(sc.family, "OUTPUT"@, "KUBE-ROUTER-OUTPUT"@)
        }),
{
}

/// An action and a set show what they hold.
pub proof fn lemma_values_show_fields(acts: Seq<SyncAction>, i: int, s: IpsetPlan)
    requires
        0 <= i < acts.len(),
    ensures
        action_views(acts).len() == acts.len(),
        acts[i] matches SyncAction::RestoreSet(t) ==> action_views(acts)[i]
            == ActionView::RestoreSet(t@),
        acts[i] matches SyncAction::RestoreFilter(f, t) ==> action_views(acts)[i]
            == ActionView::RestoreFilter(f, t@),
        acts[i] matches SyncAction::EnsureJump(f, a, b) ==> action_views(acts)[i]
            == ActionView::EnsureJump(f, a@, b@),
        s@.name == s.name@,
        s@.set_type == s.set_type,
        s@.family == s.family,
        s@.entries == crate::text::texts(s.entries@),
{
}

/// The scene that a controller sees in a family: its own node, version, default and networks, and
/// all objects of the world.
pub proof fn lemma_scene_by_fields(c: FirewallController, world: PolicyWorld, family: IpFamily)
    ensures
        c.scene(world, family).policies == world.policies@,
        c.scene(world, family).pods == world.pods@,
        c.scene(world, family).namespaces == world.namespaces@,
        c.scene(world, family).node == c.node@,
        c.scene(world, family).family == family,
        c.scene(world, family).sync_version == c.sync_version@,
        c.scene(world, family).default_deny == c.default_deny,
        c.scene(world, family).pod_cidrs == c.pod_cidrs@,
{
}

/// A failure ends a sync with that failure; without one the next action is performed while there
/// is one, and in the end the sync succeeds.
pub proof fn lemma_step_by_step(total: usize, done: usize, e: SyncError)
    ensures
        next_step(total, done, Err(e)) == SyncStep::End(Err(e)),
        done < total ==> next_step(total, done, Ok(())) == SyncStep::Perform(done),
        done >= total ==> next_step(total, done, Ok(())) == SyncStep::End(Ok(())),
{
}

/// The words that ask for a jump and those that put it first.
pub proof fn lemma_jump_words_written_out(builtin: Seq<char>, target: Seq<char>)
    ensures
        check_jump_words(builtin, target) == seq!["-w"@, "-C"@, builtin, "-j"@, target],
        insert_jump_words(builtin, target) == seq!["-w"@, "-I"@, builtin, "1"@, "-j"@, target],
{
}

/// A command of a set script.
pub enum SetCommand {
    /// Makes a set where there is none.
    Create(Seq<char>),
    /// Empties a set.
    Flush(Seq<char>),
    /// Adds an entry to a set.
    Insert(Seq<char>, Seq<char>),
    /// Exchanges the contents of two sets.
    Swap(Seq<char>, Seq<char>),
    /// Drops a set.
    Destroy(Seq<char>),
}

/// The line of a command.
pub open spec fn command_line(c: SetCommand, set_type: SetType, family: IpFamily) -> Seq<char> {
    match c {
        SetCommand::Create(s) => "create "@ + s + " "@ + type_word(set_type) + " family "@
            + inet_word(family) + " -exist\n"@,
        SetCommand::Flush(s) => "flush "@ + s + "\n"@,
        SetCommand::Insert(s, e) => "add "@ + s + " "@ + e + " -exist\n"@,
        SetCommand::Swap(a, b) => "swap "@ + a + " "@ + b + "\n"@,
        SetCommand::Destroy(s) => "destroy "@ + s + "\n"@,
    }
}

/// The sets of a node by their names, after a command.
pub open spec fn obeyed(
    sets: Map<Seq<char>, Set<Seq<char>>>,
    c: SetCommand,
) -> Map<Seq<char>, Set<Seq<char>>> {
    match c {
        SetCommand::Create(s) => if sets.contains_key(s) {
            sets
        } else {
            sets.insert(s, Set::empty())
        },
        SetCommand::Flush(s) => sets.insert(s, Set::empty()),
        SetCommand::Insert(s, e) => sets.insert(s, sets[s].insert(e)),
        SetCommand::Swap(a, b) => sets.insert(a, sets[b]).insert(b, sets[a]),
        SetCommand::Destroy(s) => sets.remove(s),
    }
}

/// The sets of a node after the commands, in order.
pub open spec fn obeyed_all(
    sets: Map<Seq<char>, Set<Seq<char>>>,
    cs: Seq<SetCommand>,
) -> Map<Seq<char>, Set<Seq<char>>>
    decreases cs.len(),
{
    if cs.len() == 0 {
        sets
    } else {
        obeyed(obeyed_all(sets, cs.drop_last()), cs.last())
    }
}

/// The commands of the script of a set.
pub open spec fn set_commands(set: Seq<char>, entries: Seq<Seq<char>>) -> Seq<SetCommand> {
    let tmp = "TMP-"@ + set;
    seq![SetCommand::Create(set), SetCommand::Create(tmp), SetCommand::Flush(tmp)]
        + entries.map_values(|e: Seq<char>| SetCommand::Insert(tmp, e)) + seq![
        SetCommand::Swap(tmp, set),
        SetCommand::Destroy(tmp),
    ]
}

/// The script of a set is exactly the lines of its commands, in order.
pub proof fn lemma_script_is_commands(
    set: Seq<char>,
    set_type: SetType,
    family: IpFamily,
    entries: Seq<Seq<char>>,
)
    ensures
        restore_lines(set, set_type, family, entries) == set_commands(set, entries).map_values(
            |c: SetCommand| command_line(c, set_type, family),
        ),
{
    let g = |c: SetCommand| command_line(c, set_type, family);
    assert(restore_lines(set, set_type, family, entries) =~= set_commands(
        set,
        entries,
    ).map_values(g));
}

proof fn lemma_obeyed_sum(
    sets: Map<Seq<char>, Set<Seq<char>>>,
    a: Seq<SetCommand>,
    b: Seq<SetCommand>,
)
    ensures
        obeyed_all(sets, a + b) == obeyed_all(obeyed_all(sets, a), b),
    decreases b.len(),
{
    if b.len() == 0 {
        assert(a + b =~= a);
    } else {
        lemma_obeyed_sum(sets, a, b.drop_last());
        assert((a + b).drop_last() =~= a + b.drop_last());
        assert((a + b).last() == b.last());
    }
}

proof fn lemma_obeyed_one(sets: Map<Seq<char>, Set<Seq<char>>>, c: SetCommand)
    ensures
        obeyed_all(sets, seq![c]) == obeyed(sets, c),
{
    let one = seq![c];
    assert(one.drop_last().len() == 0);
    assert(obeyed_all(sets, one.drop_last()) == sets);
    assert(one.last() == c);
}

proof fn lemma_inserts(
    sets: Map<Seq<char>, Set<Seq<char>>>,
    tmp: Seq<char>,
    entries: Seq<Seq<char>>,
)
    requires
        sets.contains_key(tmp),
        sets[tmp] == Set::<Seq<char>>::empty(),
    ensures
        obeyed_all(sets, entries.map_values(|e: Seq<char>| SetCommand::Insert(tmp, e)))
            == sets.insert(tmp, entries.to_set()),
    decreases entries.len(),
{
    let f = |e: Seq<char>| SetCommand::Insert(tmp, e);
    let cs = entries.map_values(f);
    if entries.len() == 0 {
        assert(entries.to_set() =~= Set::<Seq<char>>::empty());
        assert(obeyed_all(sets, cs) =~= sets.insert(tmp, entries.to_set()));
    } else {
        let front = entries.drop_last();
        let e = entries.last();
        lemma_inserts(sets, tmp, front);
        assert(cs.drop_last() =~= front.map_values(f));
        assert(cs.last() == SetCommand::Insert(tmp, e));
        assert(front.to_set().insert(e) =~= entries.to_set()) by {
            assert(entries =~= front + seq![e]);
            assert forall|t: Seq<char>| front.to_set().insert(e).contains(t)
                <==> entries.to_set().contains(t) by {
                crate::seqs::lemma_in_sum(front, seq![e], t);
                assert(seq![e][0] == e);
            }
        }
        assert(obeyed_all(sets, cs) =~= sets.insert(tmp, entries.to_set()));
    }
}

/// What the script does: whatever sets there are before, afterwards the set has exactly the
/// entries, its temporary is gone, and every other set is as it was.
pub proof fn lemma_script_replaces_contents(
    sets: Map<Seq<char>, Set<Seq<char>>>,
    set: Seq<char>,
    entries: Seq<Seq<char>>,
)
    ensures
        obeyed_all(sets, set_commands(set, entries)) == sets.insert(set, entries.to_set()).remove(
            "TMP-"@ + set,
        ),
{
    let tmp = "TMP-"@ + set;
    reveal_strlit("TMP-");
    assert(tmp.len() == set.len() + 4);
    let c0 = SetCommand::Create(set);
    let c1 = SetCommand::Create(tmp);
    let c2 = SetCommand::Flush(tmp);
    let head = seq![c0, c1, c2];
    let adds = entries.map_values(|e: Seq<char>| SetCommand::Insert(tmp, e));
    let c3 = SetCommand::Swap(tmp, set);
    let c4 = SetCommand::Destroy(tmp);
    let tail = seq![c3, c4];
    assert(head =~= seq![c0] + seq![c1] + seq![c2]);
    lemma_obeyed_sum(sets, seq![c0] + seq![c1], seq![c2]);
    lemma_obeyed_sum(sets, seq![c0], seq![c1]);
    lemma_obeyed_one(sets, c0);
    let s1 = obeyed(sets, c0);
    lemma_obeyed_one(s1, c1);
    let s2 = obeyed(s1, c1);
    lemma_obeyed_one(s2, c2);
    let s3 = obeyed(s2, c2);
    lemma_obeyed_sum(sets, head + adds, tail);
    lemma_obeyed_sum(sets, head, adds);
    lemma_inserts(s3, tmp, entries);
    let s4 = s3.insert(tmp, entries.to_set());
    assert(tail =~= seq![c3] + seq![c4]);
    lemma_obeyed_sum(s4, seq![c3], seq![c4]);
    lemma_obeyed_one(s4, c3);
    let s5 = obeyed(s4, c3);
    lemma_obeyed_one(s5, c4);
    assert(obeyed(s5, c4) =~= sets.insert(set, entries.to_set()).remove(tmp));
}

} // verus!
