//! Filter-table documents and the commands that load them.

use vstd::prelude::*;

use crate::common::ipfamily::IpFamily;
use crate::netpol::ipset::lemma_script_push;
use crate::text::{cat2, trim};

verus! {

/// The lines of a filter-table document: the table, the chain declarations, the rules, the
/// commit.
pub open spec fn filter_lines(decls: Seq<Seq<char>>, rules: Seq<Seq<char>>) -> Seq<Seq<char>> {
    seq!["*filter\n"@] + decls.map_values(|d: Seq<char>| d.push('\n')) + rules.map_values(
        |r: Seq<char>| r.push('\n'),
    ) + seq!["COMMIT\n"@]
}

/// The filter-table document of the chain declarations and rules.
pub fn filter_restore_doc(decls: &[String], rules: &[String]) -> (r: String)
    ensures
        r@ == crate::netpol::ipset::script(
            filter_lines(crate::text::texts(decls@), crate::text::texts(rules@)),
        ),
{
    let ghost ds = crate::text::texts(decls@);
    let ghost rs = crate::text::texts(rules@);
    let ghost all = filter_lines(ds, rs);
    let mut out = String::from_str("*filter\n");
    proof {
        assert(all.take(0) =~= Seq::<Seq<char>>::empty());
        assert(all.take(1) =~= all.take(0).push("*filter\n"@));
        lemma_script_push(all.take(0), "*filter\n"@);
        assert(out@ =~= crate::netpol::ipset::script(all.take(1)));
    }
    let mut i: usize = 0;
    while i < decls.len()
        invariant
            i <= decls.len(),
            ds == crate::text::texts(decls@),
            all == filter_lines(ds, rs),
            out@ == crate::netpol::ipset::script(all.take(1 + i)),
        decreases decls.len() - i,
    {
        proof {
            assert(all[1 + i] == decls@[i as int]@.push('\n'));
            assert(all.take(1 + i + 1) =~= all.take(1 + i).push(all[1 + i]));
            lemma_script_push(all.take(1 + i), all[1 + i]);
        }
        let ghost before = out@;
        out.append(decls[i].as_str());
        out.push('\n');
        assert(out@ =~= before + decls@[i as int]@.push('\n'));
        i = i + 1;
    }
    let mut j: usize = 0;
    while j < rules.len()
        invariant
            j <= rules.len(),
            i == decls.len(),
            ds == crate::text::texts(decls@),
            rs == crate::text::texts(rules@),
            all == filter_lines(ds, rs),
            out@ == crate::netpol::ipset::script(all.take(1 + i + j)),
        decreases rules.len() - j,
    {
        proof {
            assert(all[1 + i + j] == rules@[j as int]@.push('\n'));
            assert(all.take(1 + i + j + 1) =~= all.take(1 + i + j).push(all[1 + i + j]));
            lemma_script_push(all.take(1 + i + j), all[1 + i + j]);
        }
        let ghost before = out@;
        out.append(rules[j].as_str());
        out.push('\n');
        assert(out@ =~= before + rules@[j as int]@.push('\n'));
        j = j + 1;
    }
    proof {
        assert(all.take(1 + i + j + 1) =~= all.take(1 + i + j).push("COMMIT\n"@));
        lemma_script_push(all.take(1 + i + j), "COMMIT\n"@);
        assert(all.take(1 + i + j + 1) =~= all);
    }
    out.append("COMMIT\n");
    out
}

/// A failure of a filter-table operation.
#[derive(Debug)]
pub struct IptablesError(pub String);

impl IptablesError {
    /// The text shown to a user.
    pub fn message(&self) -> (r: String)
        ensures
            r@ == "iptables error: "@ + self.0@,
    {
        cat2("iptables error: ", self.0.as_str())
    }
}

/// The filter-table tool of one family.
#[derive(Debug, Clone)]
pub struct SystemIptables {
    /// Name of the tool.
    pub base: &'static str,
}

impl SystemIptables {
    /// The tool of the family.
    pub fn for_family(family: IpFamily) -> (r: SystemIptables)
        ensures
            r.base@ == match family {
                IpFamily::V4 => "iptables"@,
                IpFamily::V6 => "ip6tables"@,
            },
    {
        SystemIptables {
            base: match family {
                IpFamily::V4 => "iptables",
                IpFamily::V6 => "ip6tables",
            },
        }
    }

    /// The program that prints the table.
    pub fn save_program(&self) -> (r: String)
        ensures
            r@ == self.base@ + "-save"@,
    {
        cat2(self.base, "-save")
    }

    /// The arguments of the program that prints the table.
    pub fn save_args(&self) -> (r: Vec<&'static str>)
        ensures
            r@ == seq!["-t", "filter"],
    {
        let r: Vec<&'static str> = vec!["-t", "filter"];
        assert(r@ =~= seq!["-t", "filter"]);
        r
    }

    /// The program that loads a document.
    pub fn restore_program(&self) -> (r: String)
        ensures
            r@ == self.base@ + "-restore"@,
    {
        cat2(self.base, "-restore")
    }

    /// The arguments of the program that loads a document; chains that the document does not name
    /// are kept.
    pub fn restore_args(&self) -> (r: Vec<&'static str>)
        ensures
            r@ == seq!["--wait", "-T", "filter", "--noflush"],
    {
        let r: Vec<&'static str> = vec!["--wait", "-T", "filter", "--noflush"];
        assert(r@ =~= seq!["--wait", "-T", "filter", "--noflush"]);
        r
    }
}

/// The arguments that ask whether a built-in chain jumps to the target.
pub open spec fn check_jump_words(builtin: Seq<char>, target: Seq<char>) -> Seq<Seq<char>> {
    seq!["-w"@, "-C"@, builtin, "-j"@, target]
}

/// The arguments that insert such a jump at the first position.
pub open spec fn insert_jump_words(builtin: Seq<char>, target: Seq<char>) -> Seq<Seq<char>> {
    seq!["-w"@, "-I"@, builtin, "1"@, "-j"@, target]
}

/// What comes next when a jump must exist: the check is asked first; the jump is inserted only
/// where the check did not find it.
pub fn ensure_jump_step(check_passed: Option<bool>, builtin: &str, target: &str) -> (r: Option<
    Vec<String>,
>)
    ensures
        match check_passed {
            None => r matches Some(a) && crate::text::texts(a@) == check_jump_words(
                builtin@,
                target@,
            ),
            Some(true) => r is None,
            Some(false) => r matches Some(a) && crate::text::texts(a@) == insert_jump_words(
                builtin@,
                target@,
            ),
        },
{
    match check_passed {
        None => {
            let a: Vec<String> = vec![
                String::from_str("-w"),
                String::from_str("-C"),
                builtin.to_owned(),
                String::from_str("-j"),
                target.to_owned(),
            ];
            assert(crate::text::texts(a@) =~= check_jump_words(builtin@, target@));
            Some(a)
        },
        Some(true) => None,
        Some(false) => {
            let a: Vec<String> = vec![
                String::from_str("-w"),
                String::from_str("-I"),
                builtin.to_owned(),
                String::from_str("1"),
                String::from_str("-j"),
                target.to_owned(),
            ];
            assert(crate::text::texts(a@) =~= insert_jump_words(builtin@, target@));
            Some(a)
        },
    }
}

/// What a run of a filter-table tool comes to: success, or its trimmed error output.
pub fn run_outcome(success: bool, stderr: &str) -> (r: Result<(), IptablesError>)
    ensures
        match r {
            Ok(_) => success,
            Err(e) => !success && e.0@ == crate::text::trimmed(stderr@),
        },
{
    if success {
        Ok(())
    } else {
        Err(IptablesError(trim(stderr)))
    }
}

} // verus!
