//! Address sets: the script that replaces the contents of a set in one step.

use vstd::prelude::*;

use crate::common::ipfamily::IpFamily;
use crate::text::{cat2, cat3, cat5, cat7, contains};

verus! {

/// How a set stores its entries.
#[derive(Debug, Clone, Copy, PartialEq, Eq, Structural)]
pub enum SetType {
    /// Single addresses.
    HashIp,
    /// Networks.
    HashNet,
}

impl SetType {
    /// The keyword of the type.
    pub open spec fn keyword(self) -> Seq<char> {
        match self {
            SetType::HashIp => "hash:ip"@,
            SetType::HashNet => "hash:net"@,
        }
    }

    /// The keyword of the type.
    pub fn as_str(self) -> (r: &'static str)
        ensures
            r@ == self.keyword(),
    {
        match self {
            SetType::HashIp => "hash:ip",
            SetType::HashNet => "hash:net",
        }
    }
}

/// The keyword of a family.
pub open spec fn family_keyword(family: IpFamily) -> Seq<char> {
    match family {
        IpFamily::V4 => "inet"@,
        IpFamily::V6 => "inet6"@,
    }
}

fn family_kw(family: IpFamily) -> (r: &'static str)
    ensures
        r@ == family_keyword(family),
{
    match family {
        IpFamily::V4 => "inet",
        IpFamily::V6 => "inet6",
    }
}

/// The temporary set that is filled before it takes the place of `set`.
pub open spec fn tmp_name(set: Seq<char>) -> Seq<char> {
    "TMP-"@ + set
}

/// The line that makes a set where there is none.
pub open spec fn create_line(set: Seq<char>, set_type: SetType, family: IpFamily) -> Seq<char> {
    "create "@ + set + " "@ + set_type.keyword() + " family "@ + family_keyword(family)
        + " -exist\n"@
}

/// The line that adds an entry.
pub open spec fn add_line(set: Seq<char>, entry: Seq<char>) -> Seq<char> {
    "add "@ + set + " "@ + entry + " -exist\n"@
}

/// The lines of the script, in order: make both sets, empty the temporary one, fill it, exchange
/// the two, drop the temporary one.
pub open spec fn restore_lines(
    set: Seq<char>,
    set_type: SetType,
    family: IpFamily,
    entries: Seq<Seq<char>>,
) -> Seq<Seq<char>> {
    let tmp = tmp_name(set);
    seq![
        create_line(set, set_type, family),
        create_line(tmp, set_type, family),
        "flush "@ + tmp + "\n"@,
    ] + entries.map_values(|e: Seq<char>| add_line(tmp, e)) + seq![
        "swap "@ + tmp + " "@ + set + "\n"@,
        "destroy "@ + tmp + "\n"@,
    ]
}

/// The lines one after the other.
pub open spec fn script(lines: Seq<Seq<char>>) -> Seq<char> {
    crate::seqs::flat(lines, |l: Seq<char>| l)
}

/// A script is lengthened by a line.
pub proof fn lemma_script_push(lines: Seq<Seq<char>>, line: Seq<char>)
    ensures
        script(lines.push(line)) == script(lines) + line,
{
    assert(lines.push(line).drop_last() =~= lines);
}

/// The script that replaces the contents of `set` by `entries` in one step.
pub fn build_restore_payload(
    set: &str,
    set_type: SetType,
    family: IpFamily,
    entries: &[String],
) -> (r: String)
    ensures
        r@ == script(restore_lines(set@, set_type, family, crate::text::texts(entries@))),
{
    let tmp_text = cat2("TMP-", set);
    let tmp = tmp_text.as_str();
    let typ = set_type.as_str();
    let fam = family_kw(family);
    let ghost all = restore_lines(set@, set_type, family, crate::text::texts(entries@));
    let mut out = String::new();
    assert(out@ =~= script(all.take(0)));
    let l0 = cat7("create ", set, " ", typ, " family ", fam, " -exist\n");
    let l1 = cat7("create ", tmp, " ", typ, " family ", fam, " -exist\n");
    let l2 = cat3("flush ", tmp, "\n");
    out.append(l0.as_str());
    out.append(l1.as_str());
    out.append(l2.as_str());
    proof {
        assert(all.take(1) =~= all.take(0).push(l0@));
        assert(all.take(2) =~= all.take(1).push(l1@));
        assert(all.take(3) =~= all.take(2).push(l2@));
        lemma_script_push(all.take(0), l0@);
        lemma_script_push(all.take(1), l1@);
        lemma_script_push(all.take(2), l2@);
    }
    let mut i: usize = 0;
    while i < entries.len()
        invariant
            i <= entries.len(),
            tmp@ == tmp_name(set@),
            all == restore_lines(set@, set_type, family, crate::text::texts(entries@)),
            out@ == script(all.take(3 + i)),
        decreases entries.len() - i,
    {
        let line = cat5("add ", tmp, " ", entries[i].as_str(), " -exist\n");
        proof {
            assert(all[3 + i] == line@);
            assert(all.take(3 + i + 1) =~= all.take(3 + i).push(line@));
            lemma_script_push(all.take(3 + i), line@);
        }
        out.append(line.as_str());
        i = i + 1;
    }
    let s = cat5("swap ", tmp, " ", set, "\n");
    let d = cat3("destroy ", tmp, "\n");
    proof {
        let n = 3 + i;
        assert(all.take(n + 1) =~= all.take(n).push(s@));
        assert(all.take(n + 2) =~= all.take(n + 1).push(d@));
        lemma_script_push(all.take(n), s@);
        lemma_script_push(all.take(n + 1), d@);
        assert(all.take(n + 2) =~= all);
    }
    out.append(s.as_str());
    out.append(d.as_str());
    out
}

/// In the script every entry is added to the temporary set before the exchange, which comes
/// before the temporary set is dropped; the live set is touched by nothing but its creation and
/// the exchange.
pub proof fn lemma_restore_order(
    set: Seq<char>,
    set_type: SetType,
    family: IpFamily,
    entries: Seq<Seq<char>>,
)
    ensures
        ({
            let lines = restore_lines(set, set_type, family, entries);
            let n = entries.len() as int;
            &&& lines.len() == n + 5
            &&& forall|i: int| 0 <= i < n ==> #[trigger] lines[3 + i] == add_line(
                tmp_name(set),
                entries[i],
            )
            &&& lines[n + 3] == "swap "@ + tmp_name(set) + " "@ + set + "\n"@
            &&& lines[n + 4] == "destroy "@ + tmp_name(set) + "\n"@
        }),
{
}

/// The set tool.
#[derive(Debug, Clone, Copy)]
pub struct SystemIpset;

impl SystemIpset {
    /// The tool.
    pub fn new() -> (r: SystemIpset)
        ensures
            r == SystemIpset,
    {
        SystemIpset
    }

    /// The arguments with which it reads a script; what is there already is no failure.
    pub fn restore_args(&self) -> (r: Vec<&'static str>)
        ensures
            r@ == seq!["restore", "-exist"],
    {
        let r: Vec<&'static str> = vec!["restore", "-exist"];
        assert(r@ =~= seq!["restore", "-exist"]);
        r
    }

    /// The arguments with which it drops a set.
    pub fn destroy_args<'a>(&self, name: &'a str) -> (r: Vec<&'a str>)
        ensures
            r@ == seq!["destroy", name],
    {
        let r: Vec<&'a str> = vec!["destroy", name];
        assert(r@ =~= seq!["destroy", name]);
        r
    }
}

/// A failure of a set operation.
#[derive(Debug)]
pub struct IpsetError(pub String);

impl IpsetError {
    /// The text shown to a user.
    pub fn message(&self) -> (r: String)
        ensures
            r@ == "ipset error: "@ + self.0@,
    {
        cat2("ipset error: ", self.0.as_str())
    }
}

/// What a run of the set tool comes to: success, or its trimmed error output.
pub fn restore_outcome(success: bool, stderr: &str) -> (r: Result<(), IpsetError>)
    ensures
        match r {
            Ok(_) => success,
            Err(e) => !success && e.0@ == crate::text::trimmed(stderr@),
        },
{
    if success {
        Ok(())
    } else {
        Err(IpsetError(crate::text::trim(stderr)))
    }
}

/// What dropping a set comes to: a set that does not exist counts as dropped.
pub fn destroy_outcome(success: bool, stderr: &str) -> (r: Result<(), IpsetError>)
    ensures
        match r {
            Ok(_) => success || crate::text::has_infix(stderr@, "does not exist"@),
            Err(e) => !success && !crate::text::has_infix(stderr@, "does not exist"@) && e.0@
                == crate::text::trimmed(stderr@),
        },
{
    if success || contains(stderr, "does not exist") {
        Ok(())
    } else {
        Err(IpsetError(crate::text::trim(stderr)))
    }
}

} // verus!
