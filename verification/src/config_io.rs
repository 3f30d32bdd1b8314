//! Where the configuration lives: the root directory under the user's XDG
//! configuration home, with a fixed fallback, and the paths below it.

use vstd::prelude::*;
use vstd::multiset::Multiset;
use crate::config::ConfigRoot;
use crate::text::{chars_of, push_char, push_str, string_from_chars};

verus! {

#[verifier::external_type_specification]
#[verifier::external_body]
pub struct ExBaseDirectories(xdg::BaseDirectories);

/// `xdg::BaseDirectories::new`: reads the environment (`HOME`,
/// `XDG_CONFIG_HOME`, ...); `None` when it fails (no home directory). What it
/// finds depends on the environment, so nothing is stated of it.
#[verifier::external_body]
fn base_directories_new() -> (r: Option<xdg::BaseDirectories>) {
    match xdg::BaseDirectories::new() {
        Ok(d) => Some(d),
        Err(_) => None,
    }
}

/// `xdg::BaseDirectories::get_config_home`, as a string. It is the
/// environment's configuration home, so nothing is stated of it. Bytes of the
/// path that are not UTF-8 become U+FFFD here, so a configuration home with
/// such a name is not found again on disk.
#[verifier::external_body]
fn config_home(d: &xdg::BaseDirectories) -> (r: String) {
    d.get_config_home().to_string_lossy().into_owned()
}

/// `base` with `rel` pushed onto it, as `PathBuf::push` does on Unix: an
/// absolute `rel` replaces `base`; otherwise a `/` separates them when `base`
/// does not already end in one.
pub open spec fn path_join(base: Seq<char>, rel: Seq<char>) -> Seq<char> {
    if rel.len() > 0 && rel[0] == '/' {
        rel
    } else if base.len() > 0 && base.last() != '/' {
        base + seq!['/'] + rel
    } else {
        base + rel
    }
}

/// Joins two paths.
pub fn join_path(base: &str, rel: &str) -> (r: String)
    ensures
        r@ == path_join(base@, rel@),
{
    let b = chars_of(base);
    let r = chars_of(rel);
    if r.len() > 0 && r[0] == '/' {
        return string_from_chars(&r);
    }
    let mut s = string_from_chars(&b);
    if b.len() > 0 && b[b.len() - 1] != '/' {
        push_char(&mut s, '/');
    }
    push_str(&mut s, rel);
    s
}

/// The configuration root, given the configuration home that was found: a
/// `wlxoverlay` directory in it, else `/tmp/wlxoverlay`.
pub open spec fn config_root_for(home: Option<Seq<char>>) -> Seq<char> {
    match home {
        Some(h) => path_join(h, "wlxoverlay"@),
        None => "/tmp/wlxoverlay"@,
    }
}

/// The configuration root under the configuration home `home` (when one was found).
pub fn config_root_from(home: Option<String>) -> (r: String)
    ensures
        r@ == config_root_for(match home {
            Some(h) => Some(h@),
            None => None,
        }),
{
    match home {
        Some(h) => join_path(h.as_str(), "wlxoverlay"),
        None => {
            let mut s = String::new();
            push_str(&mut s, "/tmp/wlxoverlay");
            proof { reveal_strlit(""); }
            s
        },
    }
}

/// The configuration root of this user, looked up once: a process builds one
/// `ConfigPaths` at start and hands it on, so every path it derives shares
/// the same root.
pub struct ConfigPaths {
    root: String,
}

impl ConfigPaths {
    /// The root that every path is built on.
    pub closed spec fn root(&self) -> Seq<char> {
        self.root@
    }

    /// Looks the configuration root up in the environment: a `wlxoverlay`
    /// directory in the configuration home, or `/tmp/wlxoverlay` when no
    /// home is found.
    pub fn new() -> (p: ConfigPaths)
        ensures
            exists|home: Option<Seq<char>>| p.root() == config_root_for(home),
    {
        let home = match base_directories_new() {
            Some(d) => Some(config_home(&d)),
            None => None,
        };
        let ghost h = match home {
            Some(ref x) => Some(x@),
            None => None,
        };
        let root = config_root_from(home);
        assert(root@ == config_root_for(h));
        ConfigPaths { root }
    }

    /// The paths under a root that is already known.
    pub fn with_root(root: &str) -> (p: ConfigPaths)
        ensures
            p.root() == root@,
    {
        let mut s = String::new();
        push_str(&mut s, root);
        proof { reveal_strlit(""); }
        ConfigPaths { root: s }
    }
}

/// The configuration root.
pub fn get_config_root(paths: &ConfigPaths) -> (r: String)
    ensures
        r@ == paths.root(),
{
    let mut s = String::new();
    push_str(&mut s, paths.root.as_str());
    proof { reveal_strlit(""); }
    s
}

/// The path of the configuration file `filename` under the root `root`.
pub fn config_file_path_under(root: &str, filename: &str) -> (r: String)
    ensures
        r@ == path_join(root@, filename@),
{
    join_path(root, filename)
}

/// The path of the configuration file `filename`.
pub fn get_config_file_path(paths: &ConfigPaths, filename: &str) -> (r: String)
    ensures
        r@ == path_join(paths.root(), filename@),
{
    config_file_path_under(paths.root.as_str(), filename)
}

/// The drop-in directory of a configuration tree.
pub open spec fn conf_d_name_spec(c: ConfigRoot) -> Seq<char> {
    match c {
        ConfigRoot::Generic => "conf.d"@,
        ConfigRoot::WayVR => "wayvr.conf.d"@,
    }
}

impl ConfigRoot {
    /// The drop-in directory of this tree under the root `root`.
    pub fn conf_d_path_under(&self, root: &str) -> (r: String)
        ensures
            r@ == path_join(root@, conf_d_name_spec(*self)),
    {
        let name = self.conf_d_name();
        join_path(root, name.as_str())
    }

    /// The drop-in directory of this tree.
    pub fn get_conf_d_path(&self, paths: &ConfigPaths) -> (r: String)
        ensures
            r@ == path_join(paths.root(), conf_d_name_spec(*self)),
    {
        self.conf_d_path_under(paths.root.as_str())
    }
}

/// `a` comes strictly before `b` in alphabetical (code point) order, which is
/// also the order of their UTF-8 bytes.
pub open spec fn lex_lt(a: Seq<char>, b: Seq<char>) -> bool
    decreases a.len(),
{
    if a.len() == 0 {
        b.len() > 0
    } else if b.len() == 0 {
        false
    } else if a[0] != b[0] {
        (a[0] as int) < (b[0] as int)
    } else {
        lex_lt(a.skip(1), b.skip(1))
    }
}

proof fn lemma_lex_asym(a: Seq<char>, b: Seq<char>)
    requires
        lex_lt(a, b),
    ensures
        !lex_lt(b, a),
    decreases a.len(),
{
    if a.len() > 0 && b.len() > 0 && a[0] == b[0] {
        lemma_lex_asym(a.skip(1), b.skip(1));
    }
}

proof fn lemma_lex_trans(a: Seq<char>, b: Seq<char>, c: Seq<char>)
    requires
        lex_lt(a, b),
        lex_lt(b, c),
    ensures
        lex_lt(a, c),
    decreases a.len(),
{
    if a.len() > 0 && b.len() > 0 && c.len() > 0 && a[0] == b[0] && b[0] == c[0] {
        lemma_lex_trans(a.skip(1), b.skip(1), c.skip(1));
    }
}

proof fn lemma_lex_total(a: Seq<char>, b: Seq<char>)
    ensures
        a == b || lex_lt(a, b) || lex_lt(b, a),
    decreases a.len(),
{
    if a.len() == 0 && b.len() == 0 {
        assert(a =~= b);
    } else if a.len() > 0 && b.len() > 0 && a[0] == b[0] {
        lemma_lex_total(a.skip(1), b.skip(1));
        assert(a.skip(1).len() == a.len() - 1);
        assert(b.skip(1).len() == b.len() - 1);
        if a.skip(1) == b.skip(1) {
            assert(a.len() == b.len());
            assert forall|i: int| 0 <= i < a.len() implies a[i] == b[i] by {
                if i > 0 {
                    assert(a[i] == a.skip(1)[i - 1]);
                    assert(b[i] == b.skip(1)[i - 1]);
                }
            }
            assert(a =~= b);
        }
    } else if a.len() > 0 && b.len() > 0 {
        assert((a[0] as int) != (b[0] as int));
    }
}

fn chars_lt(a: &Vec<char>, b: &Vec<char>) -> (r: bool)
    ensures
        r == lex_lt(a@, b@),
{
    let mut i: usize = 0;
    assert(a@.skip(0) == a@ && b@.skip(0) == b@);
    while i < a.len() && i < b.len() && a[i] == b[i]
        invariant
            i <= a@.len() && i <= b@.len(),
            lex_lt(a@, b@) == lex_lt(a@.skip(i as int), b@.skip(i as int)),
        decreases a@.len() - i,
    {
        assert(a@.skip(i as int).skip(1) == a@.skip(i + 1));
        assert(b@.skip(i as int).skip(1) == b@.skip(i + 1));
        i = i + 1;
    }
    if i == a.len() {
        i < b.len()
    } else if i == b.len() {
        false
    } else {
        a[i] < b[i]
    }
}

/// Names in alphabetical order.
pub open spec fn names_sorted(s: Seq<String>) -> bool {
    forall|i: int, j: int| 0 <= i < j < s.len() ==> !lex_lt((#[trigger] s[j])@, (#[trigger] s[i])@)
}

/// Sorts names alphabetically.
pub fn sort_names(names: Vec<String>) -> (r: Vec<String>)
    ensures
        names_sorted(r@),
        r@.to_multiset() == names@.to_multiset(),
{
    broadcast use vstd::seq_lib::group_to_multiset_ensures;
    let mut rest = names;
    let mut sorted: Vec<String> = Vec::new();
    let ghost all = rest@;
    while rest.len() > 0
        invariant
            names_sorted(sorted@),
            sorted@.to_multiset().add(rest@.to_multiset()) == all.to_multiset(),
        decreases rest@.len(),
    {
        let ghost r0 = rest@;
        let x = rest.pop().unwrap();
        proof {
            assert(r0 == rest@.push(x));
        }
        let xc = chars_of(x.as_str());
        let mut p: usize = 0;
        while p < sorted.len() && !chars_lt(&xc, &chars_of(sorted[p].as_str()))
            invariant
                p <= sorted@.len(),
                xc@ == x@,
                forall|i: int| 0 <= i < p ==> !lex_lt(x@, (#[trigger] sorted@[i])@),
            decreases sorted@.len() - p,
        {
            p = p + 1;
        }
        let ghost s0 = sorted@;
        sorted.insert(p, x);
        proof {
            let n = sorted@;
            assert(n == s0.insert(p as int, x));
            assert forall|i: int, j: int| 0 <= i < j < n.len() implies !lex_lt((#[trigger] n[j])@, (#[trigger] n[i])@) by {
                if j < p {
                    assert(n[i] == s0[i] && n[j] == s0[j]);
                } else if i > p {
                    assert(n[i] == s0[i - 1] && n[j] == s0[j - 1]);
                } else if i == p {
                    assert(n[j] == s0[j - 1]);
                    let y = s0[p as int];
                    assert(lex_lt(x@, y@));
                    lemma_lex_total(y@, s0[j - 1]@);
                    if lex_lt(y@, s0[j - 1]@) {
                        lemma_lex_trans(x@, y@, s0[j - 1]@);
                    }
                    lemma_lex_asym(x@, s0[j - 1]@);
                } else if j == p {
                    assert(n[i] == s0[i]);
                } else {
                    assert(n[i] == s0[i] && n[j] == s0[j - 1]);
                }
            }
            vstd::seq_lib::to_multiset_insert(s0, p as int, x);
            vstd::seq_lib::to_multiset_build(rest@, x);
            broadcast use vstd::multiset::group_multiset_axioms;
            assert(n.to_multiset().add(rest@.to_multiset()) =~= s0.to_multiset().add(r0.to_multiset()));
        }
    }
    proof {
        broadcast use vstd::multiset::group_multiset_axioms;
        assert(rest@ == Seq::<String>::empty());
        assert(rest@.to_multiset() =~= Multiset::empty());
        assert(sorted@.to_multiset().add(Multiset::empty()) =~= sorted@.to_multiset());
    }
    sorted
}

/// The configuration files merged into the settings, in order: `config.yaml` in
/// the root and then in the drop-in directory, each where it exists, then every
/// file of the drop-in directory (`entries`, by name) in alphabetical order.
pub fn config_sources(root: &str, conf_d: &str, root_has_config: bool, conf_d_has_config: bool, entries: Vec<String>)
    -> (r: Vec<String>)
    ensures
        ({
            let head = (if root_has_config { seq![path_join(root@, "config.yaml"@)] } else { Seq::empty() })
                + (if conf_d_has_config { seq![path_join(conf_d@, "config.yaml"@)] } else { Seq::empty() });
            &&& r@.len() == head.len() + entries@.len()
            &&& forall|i: int| 0 <= i < head.len() ==> (#[trigger] r@[i])@ == head[i]
            &&& exists|names: Seq<String>| {
                &&& names_sorted(names)
                &&& names.to_multiset() == entries@.to_multiset()
                &&& names.len() == entries@.len()
                &&& forall|k: int| 0 <= k < names.len() ==> (#[trigger] r@[head.len() + k])@ == path_join(conf_d@, names[k]@)
            }
        }),
{
    broadcast use vstd::seq_lib::group_to_multiset_ensures;
    let ghost head = (if root_has_config { seq![path_join(root@, "config.yaml"@)] } else { Seq::empty() })
        + (if conf_d_has_config { seq![path_join(conf_d@, "config.yaml"@)] } else { Seq::empty() });
    let mut out: Vec<String> = Vec::new();
    if root_has_config {
        out.push(join_path(root, "config.yaml"));
    }
    if conf_d_has_config {
        out.push(join_path(conf_d, "config.yaml"));
    }
    assert(forall|i: int| 0 <= i < head.len() ==> (#[trigger] out@[i])@ == head[i]);
    let ghost n0 = entries@.len();
    let names = sort_names(entries);
    proof {
        names@.to_multiset_ensures();
        entries@.to_multiset_ensures();
    }
    let h = out.len();
    let mut k: usize = 0;
    while k < names.len()
        invariant
            k <= names@.len(),
            h == head.len(),
            out@.len() == h + k,
            forall|i: int| 0 <= i < head.len() ==> (#[trigger] out@[i])@ == head[i],
            forall|j: int| 0 <= j < k ==> (#[trigger] out@[h + j])@ == path_join(conf_d@, names@[j]@),
        decreases names@.len() - k,
    {
        out.push(join_path(conf_d, names[k].as_str()));
        k = k + 1;
    }
    assert(names@.len() == n0) by {
        assert(names@.to_multiset().len() == names@.len());
        assert(entries@.to_multiset().len() == entries@.len());
    }
    out
}

} // verus!
