//! The process launcher's platform policy.
//!
//! Spawning itself is an operating-system call the shell performs; what
//! is decided here, and verified, is *what* to spawn: on the shell-wrapped
//! platform family, script executables are not directly invocable, so the
//! command is routed through the command shell; on the other family,
//! processes launched from a graphical context may inherit a restricted
//! search path, so a fixed, ordered list of well-known tool directories
//! is placed ahead of the inherited one.

use vstd::prelude::*;

verus! {

/// The spawn strategy, selected once per target platform at build time
/// by the embedding shell.
#[derive(Clone, Copy, Debug, PartialEq, Eq, Structural)]
pub enum Platform {
    /// Script executables only run through the command shell's
    /// indirection layer.
    ShellWrapped,
    /// Executables run directly, but the child's search path is
    /// enriched with well-known installation directories.
    SearchPathEnriched,
}

/// The concrete program and argument vector to hand to the operating
/// system.
pub struct Invocation {
    pub program: String,
    pub args: Vec<String>,
}

/// The program the platform policy invokes.
pub open spec fn spec_program(platform: Platform, command: Seq<char>) -> Seq<char> {
    match platform {
        Platform::ShellWrapped => "cmd.exe"@,
        Platform::SearchPathEnriched => command,
    }
}

/// The argument vector the platform policy passes.
pub open spec fn spec_args(platform: Platform, command: Seq<char>, args: Seq<Seq<char>>) -> Seq<
    Seq<char>,
> {
    match platform {
        Platform::ShellWrapped => seq!["/C"@, command] + args,
        Platform::SearchPathEnriched => args,
    }
}

/// Resolve the platform-specific invocation of a command: wrapped
/// through the command shell on one family, taken as given on the
/// other.
pub fn plan_invocation(platform: Platform, command: String, args: Vec<String>) -> (r: Invocation)
    ensures
        r.program@ == spec_program(platform, command@),
        r.args.deep_view() == spec_args(platform, command@, args.deep_view()),
{
    match platform {
        Platform::ShellWrapped => {
            let mut v: Vec<String> = Vec::new();
            v.push(String::from_str("/C"));
            v.push(command);
            let n = args.len();
            let mut i: usize = 0;
            while i < n
                invariant
                    i <= n,
                    n == args@.len(),
                    v@.len() == 2 + i,
                    v@[0]@ == "/C"@,
                    v@[1]@ == command@,
                    forall|j: int| 2 <= j < 2 + i ==> #[trigger] v@[j]@ == args@[j - 2]@,
                decreases n - i,
            {
                let a = &args[i];
                v.push(a.clone());
                i = i + 1;
            }
            proof {
                assert(v.deep_view() =~= spec_args(platform, command@, args.deep_view())) by {
                    assert forall|j: int| 0 <= j < v@.len() implies v.deep_view()[j] == spec_args(
                        platform,
                        command@,
                        args.deep_view(),
                    )[j] by {
                        if j >= 2 {
                            assert(v@[j]@ == args@[j - 2]@);
                        }
                    }
                }
            }
            Invocation { program: String::from_str("cmd.exe"), args: v }
        },
        Platform::SearchPathEnriched => Invocation { program: command, args },
    }
}

/// Lexicographic order on character sequences, code point by code
/// point — the order in which version directory names are compared
/// when the newest runtime installation is picked.
pub open spec fn lex_le(a: Seq<char>, b: Seq<char>) -> bool
    decreases a.len(),
{
    if a.len() == 0 {
        true
    } else if b.len() == 0 {
        false
    } else if (a[0] as u32) != (b[0] as u32) {
        (a[0] as u32) < (b[0] as u32)
    } else {
        lex_le(a.skip(1), b.skip(1))
    }
}

proof fn lemma_lex_le_skip(a: Seq<char>, b: Seq<char>, i: int)
    requires
        0 <= i <= a.len(),
        i <= b.len(),
        forall|j: int| 0 <= j < i ==> a[j] == b[j],
    ensures
        lex_le(a, b) == lex_le(a.skip(i), b.skip(i)),
    decreases i,
{
    if i > 0 {
        assert(a[0] == b[0]);
        assert forall|j: int| 0 <= j < i - 1 implies a.skip(1)[j] == b.skip(1)[j] by {
            assert(a[j + 1] == b[j + 1]);
        }
        lemma_lex_le_skip(a.skip(1), b.skip(1), i - 1);
        assert(a.skip(1).skip(i - 1) =~= a.skip(i));
        assert(b.skip(1).skip(i - 1) =~= b.skip(i));
    } else {
        assert(a.skip(0) =~= a);
        assert(b.skip(0) =~= b);
    }
}

proof fn lemma_lex_le_total(a: Seq<char>, b: Seq<char>)
    ensures
        lex_le(a, b) || lex_le(b, a),
    decreases a.len(),
{
    if a.len() > 0 && b.len() > 0 && (a[0] as u32) == (b[0] as u32) {
        lemma_lex_le_total(a.skip(1), b.skip(1));
    }
}

proof fn lemma_lex_le_trans(a: Seq<char>, b: Seq<char>, c: Seq<char>)
    requires
        lex_le(a, b),
        lex_le(b, c),
    ensures
        lex_le(a, c),
    decreases a.len(),
{
    if a.len() > 0 {
        if (a[0] as u32) == (b[0] as u32) && (b[0] as u32) == (c[0] as u32) {
            lemma_lex_le_trans(a.skip(1), b.skip(1), c.skip(1));
        }
    }
}

/// Compare two strings in lexicographic code-point order.
pub fn str_lex_le(a: &str, b: &str) -> (r: bool)
    ensures
        r == lex_le(a@, b@),
{
    let na = a.unicode_len();
    let nb = b.unicode_len();
    let mut i: usize = 0;
    while i < na && i < nb
        invariant
            i <= na,
            i <= nb,
            na == a@.len(),
            nb == b@.len(),
            forall|j: int| 0 <= j < i ==> a@[j] == b@[j],
        decreases na - i,
    {
        let ca = a.get_char(i) as u32;
        let cb = b.get_char(i) as u32;
        if ca != cb {
            proof {
                lemma_lex_le_skip(a@, b@, i as int);
                assert(a@.skip(i as int)[0] == a@[i as int]);
                assert(b@.skip(i as int)[0] == b@[i as int]);
            }
            return ca < cb;
        }
        i = i + 1;
    }
    proof {
        lemma_lex_le_skip(a@, b@, i as int);
        if i == na {
            assert(a@.skip(i as int).len() == 0);
        } else {
            assert(b@.skip(i as int).len() == 0);
            assert(a@.skip(i as int).len() > 0);
        }
    }
    na <= nb
}

/// The newest of the installed runtime versions: the maximum directory
/// name in lexicographic order, as sorting the listing and taking the
/// last entry would find it.
pub fn latest_version(versions: &Vec<String>) -> (r: Option<String>)
    ensures
        match r {
            Some(m) => {
                &&& exists|i: int| 0 <= i < versions@.len() && #[trigger] versions@[i]@ == m@
                &&& forall|i: int| 0 <= i < versions@.len() ==> lex_le(#[trigger] versions@[i]@, m@)
            },
            None => versions@.len() == 0,
        },
{
    let n = versions.len();
    if n == 0 {
        return None;
    }
    let mut best: String = versions[0].clone();
    proof {
        assert(versions@[0]@ == best@);
        lemma_lex_le_skip(best@, best@, best@.len() as int);
    }
    let mut i: usize = 1;
    while i < n
        invariant
            1 <= i <= n,
            n == versions@.len(),
            exists|k: int| 0 <= k < i && #[trigger] versions@[k]@ == best@,
            forall|k: int| 0 <= k < i ==> lex_le(#[trigger] versions@[k]@, best@),
        decreases n - i,
    {
        let cand = &versions[i];
        if str_lex_le(best.as_str(), cand.as_str()) {
            proof {
                assert forall|k: int| 0 <= k < i + 1 implies lex_le(
                    #[trigger] versions@[k]@,
                    cand@,
                ) by {
                    if k < i {
                        lemma_lex_le_trans(versions@[k]@, best@, cand@);
                    } else {
                        lemma_lex_le_skip(cand@, cand@, cand@.len() as int);
                    }
                }
            }
            best = cand.clone();
            proof {
                assert(versions@[i as int]@ == best@);
            }
        } else {
            proof {
                lemma_lex_le_total(best@, cand@);
            }
        }
        i = i + 1;
    }
    Some(best)
}

/// The well-known tool-installation directories, in the fixed order
/// they are placed on the child's search path: package manager
/// prefixes, user-local tool directories, then the system directories.
pub open spec fn well_known_dirs(home: Seq<char>) -> Seq<Seq<char>> {
    seq![
        "/opt/homebrew/bin"@,
        "/opt/homebrew/sbin"@,
        "/usr/local/bin"@,
        "/usr/local/sbin"@,
        home + "/.local/bin"@,
        home + "/.cargo/bin"@,
        home + "/.volta/bin"@,
        home + "/.fnm/aliases/default/bin"@,
        "/usr/bin"@,
        "/bin"@,
        "/usr/sbin"@,
        "/sbin"@,
    ]
}

/// The full, ordered directory list for the child's search path: the
/// newest runtime-manager binary directory if one was found, the
/// well-known directories, and finally the inherited path if any.
pub open spec fn search_dirs(
    home: Seq<char>,
    current_path: Seq<char>,
    nvm_bin: Option<Seq<char>>,
) -> Seq<Seq<char>> {
    (match nvm_bin {
        Some(d) => seq![d],
        None => Seq::<Seq<char>>::empty(),
    }) + well_known_dirs(home) + (if current_path.len() == 0 {
        Seq::<Seq<char>>::empty()
    } else {
        seq![current_path]
    })
}

/// The directory list joined into one search-path value.
pub open spec fn join_colon(parts: Seq<Seq<char>>) -> Seq<char>
    decreases parts.len(),
{
    if parts.len() == 0 {
        Seq::empty()
    } else if parts.len() == 1 {
        parts[0]
    } else {
        parts[0] + seq![':'] + join_colon(parts.skip(1))
    }
}

proof fn lemma_join_snoc(parts: Seq<Seq<char>>, i: int)
    requires
        1 <= i < parts.len(),
    ensures
        join_colon(parts.take(i + 1)) == join_colon(parts.take(i)) + seq![':'] + parts[i],
    decreases i,
{
    let p1 = parts.take(i + 1);
    let p0 = parts.take(i);
    if i == 1 {
        assert(p1.skip(1) =~= seq![parts[1]]);
        assert(join_colon(p1.skip(1)) == parts[1]);
        assert(p0.len() == 1);
        assert(join_colon(p0) == p0[0]);
        assert(join_colon(p1) =~= join_colon(p0) + seq![':'] + parts[1]);
    } else {
        lemma_join_snoc(parts.skip(1), i - 1);
        assert(p1.skip(1) =~= parts.skip(1).take(i));
        assert(p0.skip(1) =~= parts.skip(1).take(i - 1));
        assert(parts.skip(1)[i - 1] == parts[i]);
        assert(join_colon(p1) == p1[0] + seq![':'] + join_colon(parts.skip(1).take(i)));
        assert(join_colon(p0) == p0[0] + seq![':'] + join_colon(parts.skip(1).take(i - 1)));
        assert(join_colon(p1) =~= join_colon(p0) + seq![':'] + parts[i]);
    }
}

/// Join a directory list with the platform's path separator.
pub fn join_search_path(parts: &Vec<String>) -> (r: String)
    ensures
        r@ == join_colon(parts.deep_view()),
{
    let n = parts.len();
    if n == 0 {
        return String::new();
    }
    let mut s: String = parts[0].clone();
    proof {
        assert(parts.deep_view().take(1) =~= seq![parts@[0]@]);
    }
    let mut i: usize = 1;
    while i < n
        invariant
            1 <= i <= n,
            n == parts@.len(),
            s@ == join_colon(parts.deep_view().take(i as int)),
        decreases n - i,
    {
        s.append(":");
        let p = &parts[i];
        s.append(p.as_str());
        proof {
            reveal_strlit(":");
            assert(":"@ =~= seq![':']);
            lemma_join_snoc(parts.deep_view(), i as int);
            assert(parts.deep_view()[i as int] == parts@[i as int]@);
            assert(s@ =~= join_colon(parts.deep_view().take(i + 1)));
        }
        i = i + 1;
    }
    proof {
        assert(parts.deep_view().take(n as int) =~= parts.deep_view());
    }
    s
}

/// The binary directory of the newest runtime-manager installation,
/// from the version directories the shell listed, or nothing when none
/// are installed.
pub fn nvm_node_bin(home: &String, versions: &Vec<String>) -> (r: Option<String>)
    ensures
        match r {
            Some(p) => exists|i: int|
                0 <= i < versions@.len() && #[trigger] versions@[i]@ == versions@[i]@ && p@
                    == home@ + "/.nvm/versions/node/"@ + versions@[i]@ + "/bin"@ && (forall|k: int|
                    0 <= k < versions@.len() ==> lex_le(#[trigger] versions@[k]@, versions@[i]@)),
            None => versions@.len() == 0,
        },
{
    match latest_version(versions) {
        None => None,
        Some(m) => {
            let p = home.clone().concat("/.nvm/versions/node/").concat(m.as_str()).concat("/bin");
            proof {
                let i = choose|i: int| 0 <= i < versions@.len() && #[trigger] versions@[i]@ == m@;
                assert(p@ == home@ + "/.nvm/versions/node/"@ + versions@[i]@ + "/bin"@);
            }
            Some(p)
        },
    }
}

/// Build the child's enriched search-path value: the newest
/// runtime-manager directory, the well-known directories, and the
/// inherited path when it is not empty, joined with the separator.
pub fn enriched_search_path(home: &String, current_path: &String, nvm_bin: Option<String>) -> (r:
    String)
    ensures
        r@ == join_colon(search_dirs(home@, current_path@, nvm_bin.deep_view())),
{
    let ghost nv = nvm_bin.deep_view();
    let mut dirs: Vec<String> = Vec::new();
    match nvm_bin {
        Some(d) => dirs.push(d),
        None => (),
    }
    dirs.push(String::from_str("/opt/homebrew/bin"));
    dirs.push(String::from_str("/opt/homebrew/sbin"));
    dirs.push(String::from_str("/usr/local/bin"));
    dirs.push(String::from_str("/usr/local/sbin"));
    dirs.push(home.clone().concat("/.local/bin"));
    dirs.push(home.clone().concat("/.cargo/bin"));
    dirs.push(home.clone().concat("/.volta/bin"));
    dirs.push(home.clone().concat("/.fnm/aliases/default/bin"));
    dirs.push(String::from_str("/usr/bin"));
    dirs.push(String::from_str("/bin"));
    dirs.push(String::from_str("/usr/sbin"));
    dirs.push(String::from_str("/sbin"));
    if !current_path.as_str().is_empty() {
        dirs.push(current_path.clone());
    }
    proof {
        assert(dirs.deep_view() =~= search_dirs(home@, current_path@, nv));
    }
    join_search_path(&dirs)
}

} // verus!
