//! The saved setup: the last project path, branch, checks config and log
//! folder, stored as `key=value` lines.

use vstd::prelude::*;

use crate::text::{
    chars_of, is_ws, join_path, lines_acc, lines_of, path_join, strip_cr, strip_cr_chars,
    strip_prefix_chars, string_of, trim_chars, trim_end, trim_start, trimmed,
};

verus! {

/// Saved setup config, persisted at `~/.config/autocheck/config`.
#[derive(Debug)]
pub struct SavedConfig {
    pub repo: String,
    pub branch: String,
    pub selected_config: String,
    pub log_folder: String,
}

/// The four values of a saved setup, as character sequences.
pub struct SavedConfigView {
    pub repo: Seq<char>,
    pub branch: Seq<char>,
    pub selected_config: Seq<char>,
    pub log_folder: Seq<char>,
}

impl View for SavedConfig {
    type V = SavedConfigView;

    open spec fn view(&self) -> SavedConfigView {
        SavedConfigView {
            repo: self.repo@,
            branch: self.branch@,
            selected_config: self.selected_config@,
            log_folder: self.log_folder@,
        }
    }
}

/// The saved setup in which every value is empty.
pub open spec fn empty_saved() -> SavedConfigView {
    SavedConfigView {
        repo: Seq::empty(),
        branch: Seq::empty(),
        selected_config: Seq::empty(),
        log_folder: Seq::empty(),
    }
}

impl Default for SavedConfig {
    fn default() -> (r: Self)
        ensures
            r@ == empty_saved(),
    {
        SavedConfig {
            repo: String::new(),
            branch: String::new(),
            selected_config: String::new(),
            log_folder: String::new(),
        }
    }
}

impl Clone for SavedConfig {
    fn clone(&self) -> (r: Self)
        ensures
            r@ == self@,
    {
        SavedConfig {
            repo: self.repo.clone(),
            branch: self.branch.clone(),
            selected_config: self.selected_config.clone(),
            log_folder: self.log_folder.clone(),
        }
    }
}

/// What one line of the saved file does to the setup read so far: the line
/// is trimmed, and a known key followed by `=` sets that value to the rest of
/// the line; any other line leaves the setup as it is.
pub open spec fn apply_saved_line(cfg: SavedConfigView, line: Seq<char>) -> SavedConfigView {
    let t = trimmed(line);
    if "repo="@.is_prefix_of(t) {
        SavedConfigView { repo: t.skip("repo="@.len() as int), ..cfg }
    } else if "branch="@.is_prefix_of(t) {
        SavedConfigView { branch: t.skip("branch="@.len() as int), ..cfg }
    } else if "selected_config="@.is_prefix_of(t) {
        SavedConfigView { selected_config: t.skip("selected_config="@.len() as int), ..cfg }
    } else if "log_folder="@.is_prefix_of(t) {
        SavedConfigView { log_folder: t.skip("log_folder="@.len() as int), ..cfg }
    } else {
        cfg
    }
}

/// The setup that the lines give, read in order from the empty setup.
pub open spec fn saved_from_lines(lines: Seq<Seq<char>>) -> SavedConfigView
    decreases lines.len(),
{
    if lines.len() == 0 {
        empty_saved()
    } else {
        apply_saved_line(saved_from_lines(lines.drop_last()), lines.last())
    }
}

/// The setup that the text of a saved file gives.
pub open spec fn parse_saved(content: Seq<char>) -> SavedConfigView {
    saved_from_lines(lines_of(content))
}

/// The text of the saved file for a setup: one `key=value` line per value.
pub open spec fn saved_text(c: SavedConfigView) -> Seq<char> {
    "repo="@ + c.repo + "\n"@ + "branch="@ + c.branch + "\n"@ + "selected_config="@
        + c.selected_config + "\n"@ + "log_folder="@ + c.log_folder + "\n"@
}

/// A value that a saved file holds unchanged: it has no line break and does
/// not end with whitespace (reading a line trims its end).
pub open spec fn storable(v: Seq<char>) -> bool {
    &&& !v.contains('\n')
    &&& (v.len() == 0 || !is_ws(v.last()))
}

fn apply_line(cfg: &mut SavedConfig, line: &Vec<char>)
    ensures
        final(cfg)@ == apply_saved_line(old(cfg)@, line@),
{
    let t = trim_chars(line);
    let repo_key = chars_of("repo=");
    let branch_key = chars_of("branch=");
    let config_key = chars_of("selected_config=");
    let folder_key = chars_of("log_folder=");
    match strip_prefix_chars(&t, &repo_key) {
        Some(v) => {
            cfg.repo = string_of(&v);
            return ;
        },
        None => {},
    }
    match strip_prefix_chars(&t, &branch_key) {
        Some(v) => {
            cfg.branch = string_of(&v);
            return ;
        },
        None => {},
    }
    match strip_prefix_chars(&t, &config_key) {
        Some(v) => {
            cfg.selected_config = string_of(&v);
            return ;
        },
        None => {},
    }
    match strip_prefix_chars(&t, &folder_key) {
        Some(v) => {
            cfg.log_folder = string_of(&v);
        },
        None => {},
    }
}

impl SavedConfig {
    /// Parse key=value lines; unknown keys are silently ignored.
    pub fn parse(content: &str) -> (cfg: Self)
        ensures
            cfg@ == parse_saved(content@),
    {
        let cs = chars_of(content);
        let mut cfg = SavedConfig::default();
        let mut cur: Vec<char> = Vec::new();
        for i in 0..cs.len()
            invariant
                cs@ == content@,
                cfg@ == saved_from_lines(lines_acc(cs@.take(i as int)).0),
                cur@ == lines_acc(cs@.take(i as int)).1,
        {
            proof {
                assert(cs@.take(i + 1).drop_last() =~= cs@.take(i as int));
            }
            if cs[i] == '\n' {
                let line = strip_cr_chars(&cur);
                apply_line(&mut cfg, &line);
                cur = Vec::new();
                proof {
                    let done = lines_acc(cs@.take(i as int)).0;
                    assert(done.push(line@).drop_last() =~= done);
                }
            } else {
                cur.push(cs[i]);
            }
        }
        proof {
            assert(cs@.take(cs@.len() as int) =~= cs@);
        }
        if cur.len() > 0 {
            apply_line(&mut cfg, &cur);
            proof {
                let done = lines_acc(cs@).0;
                assert(done.push(cur@).drop_last() =~= done);
            }
        }
        cfg
    }

    /// Serialise to key=value format.
    pub fn to_string_repr(&self) -> (out: String)
        ensures
            out@ == saved_text(self@),
    {
        let mut out = String::from_str("repo=");
        out.append(self.repo.as_str());
        out.append("\n");
        out.append("branch=");
        out.append(self.branch.as_str());
        out.append("\n");
        out.append("selected_config=");
        out.append(self.selected_config.as_str());
        out.append("\n");
        out.append("log_folder=");
        out.append(self.log_folder.as_str());
        out.append("\n");
        out
    }

    /// The saved setup from the stored texts: the primary file's when it
    /// could be read, else the legacy file's, else the empty setup.
    pub fn from_stored(primary: Option<String>, legacy: Option<String>) -> (cfg: Self)
        ensures
            cfg@ == match primary {
                Some(c) => parse_saved(c@),
                None => match legacy {
                    Some(c) => parse_saved(c@),
                    None => empty_saved(),
                },
            },
    {
        match primary {
            Some(c) => SavedConfig::parse(c.as_str()),
            None => match legacy {
                Some(c) => SavedConfig::parse(c.as_str()),
                None => SavedConfig::default(),
            },
        }
    }

    /// Primary config path, below the home directory `home`.
    pub fn config_path(home: Option<String>) -> (out: Option<String>)
        ensures
            match home {
                Some(h) => out matches Some(p) && p@ == path_join(
                    path_join(path_join(h@, ".config"@), "autocheck"@),
                    "config"@,
                ),
                None => out is None,
            },
    {
        match dirs_path(home) {
            Some(d) => Some(join_path(d.as_str(), "config")),
            None => None,
        }
    }

    /// Legacy fallback path (pre_commit), below the home directory `home`.
    pub fn legacy_path(home: Option<String>) -> (out: Option<String>)
        ensures
            match home {
                Some(h) => out matches Some(p) && p@ == path_join(
                    path_join(path_join(h@, ".config"@), "pre_commit"@),
                    "config"@,
                ),
                None => out is None,
            },
    {
        match home {
            Some(h) => {
                let a = join_path(h.as_str(), ".config");
                let b = join_path(a.as_str(), "pre_commit");
                Some(join_path(b.as_str(), "config"))
            },
            None => None,
        }
    }
}

/// The directory of the saved setup, below the home directory `home`.
pub fn dirs_path(home: Option<String>) -> (out: Option<String>)
    ensures
        match home {
            Some(h) => out matches Some(p) && p@ == path_join(
                path_join(h@, ".config"@),
                "autocheck"@,
            ),
            None => out is None,
        },
{
    match home {
        Some(h) => {
            let a = join_path(h.as_str(), ".config");
            Some(join_path(a.as_str(), "autocheck"))
        },
        None => None,
    }
}

// ── Round trip ─────────────────────────────────────────────────────────────

proof fn lemma_lines_acc_no_newline(p: Seq<char>, x: Seq<char>)
    requires
        !x.contains('\n'),
    ensures
        lines_acc(p + x) == (lines_acc(p).0, lines_acc(p).1 + x),
    decreases x.len(),
{
    if x.len() == 0 {
        assert(p + x =~= p);
        assert(lines_acc(p).1 + x =~= lines_acc(p).1);
    } else {
        let y = x.drop_last();
        assert(!y.contains('\n')) by {
            if y.contains('\n') {
                let k = choose|k: int| 0 <= k < y.len() && y[k] == '\n';
                assert(x[k] == '\n');
            }
        }
        lemma_lines_acc_no_newline(p, y);
        assert((p + x).drop_last() =~= p + y);
        assert((p + x).last() == x.last());
        assert(x.last() != '\n') by {
            assert(x[x.len() - 1] == x.last());
        }
        assert(lines_acc(p).1 + y + seq![x.last()] =~= lines_acc(p).1 + x);
        assert((lines_acc(p).1 + y).push(x.last()) =~= lines_acc(p).1 + x);
    }
}

proof fn lemma_lines_acc_line(p: Seq<char>, x: Seq<char>)
    requires
        !x.contains('\n'),
        lines_acc(p).1.len() == 0,
    ensures
        lines_acc(p + x + "\n"@) == (lines_acc(p).0.push(strip_cr(x)), Seq::<char>::empty()),
{
    reveal_strlit("\n");
    lemma_lines_acc_no_newline(p, x);
    let q = p + x + "\n"@;
    assert(q.drop_last() =~= p + x);
    assert(lines_acc(p).1 + x =~= x);
}

proof fn lemma_saved_line(
    cfg: SavedConfigView,
    key: Seq<char>,
    v: Seq<char>,
)
    requires
        storable(v),
        key.len() > 0,
        !is_ws(key[0]),
        !is_ws(key.last()),
        !key.contains('\n'),
    ensures
        !(key + v).contains('\n'),
        strip_cr(key + v) == key + v,
        trimmed(key + v) == key + v,
{
    let l = key + v;
    assert(!l.contains('\n')) by {
        if l.contains('\n') {
            let k = choose|k: int| 0 <= k < l.len() && l[k] == '\n';
            if k < key.len() {
                assert(key[k] == '\n');
            } else {
                assert(v[k - key.len()] == '\n');
            }
        }
    }
    assert(!is_ws(l.last())) by {
        if v.len() > 0 {
            assert(l.last() == v.last());
        } else {
            assert(l.last() == key.last());
        }
    }
    assert(l[0] == key[0]);
    assert(trim_start(l) == l);
    assert(trim_end(l) == l);
}

/// Saving a setup and reading the file back gives the same setup, for every
/// setup whose values have no line break and do not end with whitespace.
pub proof fn lemma_saved_round_trip(c: SavedConfigView)
    requires
        storable(c.repo),
        storable(c.branch),
        storable(c.selected_config),
        storable(c.log_folder),
    ensures
        parse_saved(saved_text(c)) == c,
{
    reveal_strlit("repo=");
    reveal_strlit("branch=");
    reveal_strlit("selected_config=");
    reveal_strlit("log_folder=");
    reveal_strlit("\n");
    let k1 = "repo="@;
    let k2 = "branch="@;
    let k3 = "selected_config="@;
    let k4 = "log_folder="@;
    let l1 = k1 + c.repo;
    let l2 = k2 + c.branch;
    let l3 = k3 + c.selected_config;
    let l4 = k4 + c.log_folder;
    lemma_saved_line(empty_saved(), k1, c.repo);
    lemma_saved_line(empty_saved(), k2, c.branch);
    lemma_saved_line(empty_saved(), k3, c.selected_config);
    lemma_saved_line(empty_saved(), k4, c.log_folder);
    let e = Seq::<char>::empty();
    assert(lines_acc(e) == (Seq::<Seq<char>>::empty(), e));
    let p1 = e + l1 + "\n"@;
    lemma_lines_acc_line(e, l1);
    let p2 = p1 + l2 + "\n"@;
    lemma_lines_acc_line(p1, l2);
    let p3 = p2 + l3 + "\n"@;
    lemma_lines_acc_line(p2, l3);
    let p4 = p3 + l4 + "\n"@;
    lemma_lines_acc_line(p3, l4);
    assert(saved_text(c) =~= p4);
    let lines = seq![l1, l2, l3, l4];
    assert(lines_of(p4) =~= lines);
    assert(lines.drop_last() =~= seq![l1, l2, l3]);
    assert(seq![l1, l2, l3].drop_last() =~= seq![l1, l2]);
    assert(seq![l1, l2].drop_last() =~= seq![l1]);
    assert(seq![l1].drop_last() =~= Seq::<Seq<char>>::empty());
    assert(k1.is_prefix_of(l1));
    assert(l1.skip(k1.len() as int) =~= c.repo);
    assert(!k1.is_prefix_of(l2));
    assert(k2.is_prefix_of(l2));
    assert(l2.skip(k2.len() as int) =~= c.branch);
    assert(!k1.is_prefix_of(l3));
    assert(!k2.is_prefix_of(l3));
    assert(k3.is_prefix_of(l3));
    assert(l3.skip(k3.len() as int) =~= c.selected_config);
    assert(!k1.is_prefix_of(l4));
    assert(!k2.is_prefix_of(l4));
    assert(!k3.is_prefix_of(l4));
    assert(k4.is_prefix_of(l4));
    assert(l4.skip(k4.len() as int) =~= c.log_folder);
    let c1 = apply_saved_line(empty_saved(), l1);
    assert(c1 == SavedConfigView { repo: c.repo, ..empty_saved() });
    let c2 = apply_saved_line(c1, l2);
    assert(c2 == SavedConfigView { branch: c.branch, ..c1 });
    let c3 = apply_saved_line(c2, l3);
    assert(c3 == SavedConfigView { selected_config: c.selected_config, ..c2 });
    let c4 = apply_saved_line(c3, l4);
    assert(c4 == SavedConfigView { log_folder: c.log_folder, ..c3 });
    assert(saved_from_lines(Seq::<Seq<char>>::empty()) == empty_saved());
    assert(seq![l1].last() == l1);
    assert(seq![l1, l2].last() == l2);
    assert(seq![l1, l2, l3].last() == l3);
    assert(lines.last() == l4);
    assert(saved_from_lines(seq![l1]) == c1);
    assert(saved_from_lines(seq![l1, l2]) == c2);
    assert(saved_from_lines(seq![l1, l2, l3]) == c3);
    assert(saved_from_lines(lines) == c4);
    assert(c4 == c);
}

} // verus!
