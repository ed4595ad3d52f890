//! The checks configuration: commands, checks, groups, and the rules that a
//! loaded configuration must meet.

use vstd::prelude::*;

use crate::text::{copy_string, copy_strings};

verus! {

// ── Cmd ────────────────────────────────────────────────────────────────────

/// A command can be a bare string or an array of args.
#[derive(Debug)]
pub enum Cmd {
    String(String),
    Array(Vec<String>),
}

/// A command as character sequences.
pub enum CmdView {
    Str(Seq<char>),
    Args(Seq<Seq<char>>),
}

impl View for Cmd {
    type V = CmdView;

    open spec fn view(&self) -> CmdView {
        match self {
            Cmd::String(s) => CmdView::Str(s@),
            Cmd::Array(v) => CmdView::Args(v.deep_view()),
        }
    }
}

/// The arguments that a command stands for: a bare string is one argument.
pub open spec fn cmd_args(c: CmdView) -> Seq<Seq<char>> {
    match c {
        CmdView::Str(s) => seq![s],
        CmdView::Args(v) => v,
    }
}

impl Clone for Cmd {
    fn clone(&self) -> (r: Self)
        ensures
            r@ == self@,
    {
        match self {
            Cmd::String(s) => Cmd::String(copy_string(s)),
            Cmd::Array(v) => Cmd::Array(copy_strings(v)),
        }
    }
}

impl Cmd {
    pub fn as_args(&self) -> (out: Vec<String>)
        ensures
            out.deep_view() == cmd_args(self@),
    {
        match self {
            Cmd::String(s) => {
                let mut v: Vec<String> = Vec::new();
                v.push(copy_string(s));
                proof {
                    assert(v.deep_view() =~= cmd_args(self@));
                }
                v
            },
            Cmd::Array(v) => copy_strings(v),
        }
    }

    pub fn is_string(&self) -> (r: bool)
        ensures
            r == (self@ is Str),
    {
        match self {
            Cmd::String(_) => true,
            Cmd::Array(_) => false,
        }
    }
}

/// The program and the arguments that run a command: a bare string runs
/// through `sh -c`, an array runs its first element with the rest; an empty
/// array runs nothing.
pub open spec fn command_line_of(c: CmdView) -> Result<(Seq<char>, Seq<Seq<char>>), Seq<char>> {
    match c {
        CmdView::Str(s) => Ok(("sh"@, seq!["-c"@, s])),
        CmdView::Args(v) => if v.len() == 0 {
            Err("Empty command"@)
        } else {
            Ok((v[0], v.skip(1)))
        },
    }
}

/// The program and the arguments that run `cmd`.
pub fn command_line(cmd: &Cmd) -> (out: Result<(String, Vec<String>), String>)
    ensures
        match out {
            Ok((p, a)) => command_line_of(cmd@) == Ok::<(Seq<char>, Seq<Seq<char>>), Seq<char>>(
                (p@, a.deep_view()),
            ),
            Err(e) => command_line_of(cmd@) == Err::<(Seq<char>, Seq<Seq<char>>), Seq<char>>(e@),
        },
{
    match cmd {
        Cmd::String(s) => {
            let mut args: Vec<String> = Vec::new();
            args.push(String::from_str("-c"));
            args.push(copy_string(s));
            proof {
                assert(args.deep_view() =~= seq!["-c"@, s@]);
            }
            Ok((String::from_str("sh"), args))
        },
        Cmd::Array(v) => {
            if v.len() == 0 {
                return Err(String::from_str("Empty command"));
            }
            let mut rest: Vec<String> = Vec::new();
            let mut i: usize = 1;
            while i < v.len()
                invariant
                    1 <= i <= v@.len(),
                    rest@.len() == i - 1,
                    forall|k: int| 0 <= k < i - 1 ==> rest@[k]@ == v@[k + 1]@,
                decreases v@.len() - i,
            {
                rest.push(copy_string(&v[i]));
                i += 1;
            }
            proof {
                assert(rest.deep_view() =~= v.deep_view().skip(1));
            }
            Ok((copy_string(&v[0]), rest))
        },
    }
}

// ── Check ──────────────────────────────────────────────────────────────────

#[derive(Debug)]
pub struct Check {
    pub name: String,
    pub description: String,
    pub cmd: Cmd,
    pub manual: bool,
    pub audited: bool,
}

/// A check as character sequences.
pub struct CheckView {
    pub name: Seq<char>,
    pub description: Seq<char>,
    pub cmd: CmdView,
    pub manual: bool,
    pub audited: bool,
}

impl View for Check {
    type V = CheckView;

    open spec fn view(&self) -> CheckView {
        CheckView {
            name: self.name@,
            description: self.description@,
            cmd: self.cmd@,
            manual: self.manual,
            audited: self.audited,
        }
    }
}

impl DeepView for Check {
    type V = CheckView;

    open spec fn deep_view(&self) -> CheckView {
        self@
    }
}

impl Clone for Check {
    fn clone(&self) -> (r: Self)
        ensures
            r@ == self@,
    {
        Check {
            name: copy_string(&self.name),
            description: copy_string(&self.description),
            cmd: self.cmd.clone(),
            manual: self.manual,
            audited: self.audited,
        }
    }
}

/// A copy of each check of `v`.
pub fn copy_checks(v: &Vec<Check>) -> (out: Vec<Check>)
    ensures
        out.deep_view() == v.deep_view(),
{
    let mut out: Vec<Check> = Vec::new();
    let mut i: usize = 0;
    while i < v.len()
        invariant
            i <= v@.len(),
            out@.len() == i,
            forall|k: int| 0 <= k < i ==> out@[k]@ == v@[k]@,
        decreases v@.len() - i,
    {
        out.push(v[i].clone());
        i += 1;
    }
    proof {
        assert(out.deep_view() =~= v.deep_view());
    }
    out
}

// ── Group ──────────────────────────────────────────────────────────────────

#[derive(Debug)]
pub struct Group {
    pub label: String,
    pub color: Option<String>,
    pub checks: Vec<Check>,
}

/// A group as character sequences.
pub struct GroupView {
    pub label: Seq<char>,
    pub color: Option<Seq<char>>,
    pub checks: Seq<CheckView>,
}

impl View for Group {
    type V = GroupView;

    open spec fn view(&self) -> GroupView {
        GroupView { label: self.label@, color: self.color.deep_view(), checks: self.checks.deep_view() }
    }
}

impl DeepView for Group {
    type V = GroupView;

    open spec fn deep_view(&self) -> GroupView {
        self@
    }
}

fn copy_opt_string(s: &Option<String>) -> (out: Option<String>)
    ensures
        out.deep_view() == s.deep_view(),
{
    match s {
        Some(x) => Some(copy_string(x)),
        None => None,
    }
}

impl Clone for Group {
    fn clone(&self) -> (r: Self)
        ensures
            r@ == self@,
    {
        Group {
            label: copy_string(&self.label),
            color: copy_opt_string(&self.color),
            checks: copy_checks(&self.checks),
        }
    }
}

// ── ChecksConfig ───────────────────────────────────────────────────────────

#[derive(Debug)]
pub struct ChecksConfig {
    pub project_root: Option<String>,
    pub path_log_file: Option<String>,
    pub groups: Vec<Group>,
}

/// A checks configuration as character sequences.
pub struct ChecksConfigView {
    pub project_root: Option<Seq<char>>,
    pub path_log_file: Option<Seq<char>>,
    pub groups: Seq<GroupView>,
}

impl View for ChecksConfig {
    type V = ChecksConfigView;

    open spec fn view(&self) -> ChecksConfigView {
        ChecksConfigView {
            project_root: self.project_root.deep_view(),
            path_log_file: self.path_log_file.deep_view(),
            groups: self.groups.deep_view(),
        }
    }
}

/// The message for the first group of `gs` that has no checks, if any.
pub open spec fn empty_group_error(gs: Seq<GroupView>) -> Option<Seq<char>>
    decreases gs.len(),
{
    if gs.len() == 0 {
        None
    } else if gs[0].checks.len() == 0 {
        Some("Group '"@ + gs[0].label + "' has no checks"@)
    } else {
        empty_group_error(gs.drop_first())
    }
}

/// Why a configuration is refused: it has no group, or a group has no checks
/// (the first such group is named). `None` when it is accepted.
pub open spec fn config_error(c: ChecksConfigView) -> Option<Seq<char>> {
    if c.groups.len() == 0 {
        Some("Config must contain at least one group"@)
    } else {
        empty_group_error(c.groups)
    }
}

impl ChecksConfig {
    /// Validate a configuration that has been read: at least one group, and
    /// no group without checks.
    pub fn validate(self) -> (out: Result<ChecksConfig, String>)
        ensures
            out is Ok <==> config_error(self@) is None,
            out matches Ok(c) ==> c@ == self@,
            out matches Err(e) ==> config_error(self@) == Some(e@),
    {
        if self.groups.len() == 0 {
            return Err(String::from_str("Config must contain at least one group"));
        }
        let mut i: usize = 0;
        proof {
            assert(self.groups.deep_view().skip(0) =~= self.groups.deep_view());
        }
        while i < self.groups.len()
            invariant
                i <= self.groups@.len(),
                empty_group_error(self.groups.deep_view()) == empty_group_error(
                    self.groups.deep_view().skip(i as int),
                ),
            decreases self.groups@.len() - i,
        {
            let ghost rest = self.groups.deep_view().skip(i as int);
            proof {
                assert(rest[0] == self.groups@[i as int]@);
                assert(rest.drop_first() =~= self.groups.deep_view().skip(i + 1));
            }
            if self.groups[i].checks.len() == 0 {
                let mut msg = String::from_str("Group '");
                msg.append(self.groups[i].label.as_str());
                msg.append("' has no checks");
                return Err(msg);
            }
            i += 1;
        }
        proof {
            assert(self.groups.deep_view().skip(i as int) =~= Seq::<GroupView>::empty());
        }
        Ok(self)
    }
}

// ── Discovery ─────────────────────────────────────────────────────────────

/// Whether a file name has the extension `json` as `Path::extension` reads
/// it: the name ends with `.json` and something stands before that dot.
pub open spec fn is_json_name(name: Seq<char>) -> bool {
    name.len() > 5 && name.skip(name.len() - 5) == ".json"@
}

/// Whether a file name has the extension `json`.
pub fn is_json_file_name(name: &str) -> (r: bool)
    ensures
        r == is_json_name(name@),
{
    let cs = crate::text::chars_of(name);
    let n = cs.len();
    if n <= 5 {
        return false;
    }
    let tail = crate::text::sub_chars(&cs, n - 5, n);
    let ext = crate::text::chars_of(".json");
    proof {
        assert(cs@.skip(n - 5) =~= tail@);
    }
    if tail.len() != ext.len() {
        return false;
    }
    for k in 0..tail.len()
        invariant
            tail@.len() == ext@.len(),
            ext@ == ".json"@,
            tail@ == name@.skip(name@.len() - 5),
            forall|m: int| 0 <= m < k ==> tail@[m] == ext@[m],
    {
        if tail[k] != ext[k] {
            proof {
                assert(tail@[k as int] != ext@[k as int]);
                assert(tail@ != ext@);
            }
            return false;
        }
    }
    proof {
        assert(tail@ =~= ext@);
    }
    true
}

/// The paths in order, each kept at its first occurrence only.
pub open spec fn first_occurrences(paths: Seq<Seq<char>>) -> Seq<Seq<char>>
    decreases paths.len(),
{
    if paths.len() == 0 {
        Seq::empty()
    } else {
        let d = first_occurrences(paths.drop_last());
        if d.contains(paths.last()) {
            d
        } else {
            d.push(paths.last())
        }
    }
}

/// The paths in order, each kept at its first occurrence only.
pub fn dedup_paths(paths: &Vec<String>) -> (out: Vec<String>)
    ensures
        out.deep_view() == first_occurrences(paths.deep_view()),
{
    let mut out: Vec<String> = Vec::new();
    for i in 0..paths.len()
        invariant
            out.deep_view() == first_occurrences(paths.deep_view().take(i as int)),
    {
        let ghost t = paths.deep_view().take(i + 1);
        proof {
            assert(t.drop_last() =~= paths.deep_view().take(i as int));
            assert(t.last() == paths@[i as int]@);
        }
        let mut seen = false;
        for k in 0..out.len()
            invariant
                i < paths@.len(),
                seen <==> exists|m: int| 0 <= m < k && out.deep_view()[m] == paths@[i as int]@,
        {
            proof {
                assert(out.deep_view()[k as int] == out@[k as int]@);
            }
            if crate::text::str_equal(out[k].as_str(), paths[i].as_str()) {
                seen = true;
            }
        }
        if !seen {
            let ghost before = out.deep_view();
            out.push(paths[i].clone());
            proof {
                assert(out.deep_view() =~= before.push(paths@[i as int]@));
            }
        }
    }
    proof {
        assert(paths.deep_view().take(paths@.len() as int) =~= paths.deep_view());
    }
    out
}

} // verus!
