//! Environment variable sets: string maps in key order, as a
//! `BTreeMap<String, String>` holds them.
use vstd::prelude::*;
use crate::strmap::{StrMap, key_map, lemma_insert_map};

verus! {

/// The variables an environment sets, by name.
pub open spec fn env_view(m: Seq<(Seq<char>, String)>) -> Map<Seq<char>, Seq<char>> {
    key_map(m).map_values(|v: String| v@)
}

/// Sets variable `k` to `v`, replacing any earlier value.
pub fn env_set(env: &mut StrMap<String>, k: &str, v: String)
    ensures
        env_view(final(env)@) == env_view(old(env)@).insert(k@, v@),
{
    proof {
        use_type_invariant(&*env);
    }
    let ghost old_view = env@;
    let ghost vv = v;
    env.insert(k.to_owned(), v);
    proof {
        use_type_invariant(&*env);
        lemma_insert_map(old_view, k@, vv, env@);
        assert(env_view(env@) =~= env_view(old_view).insert(k@, vv@));
    }
}

/// Sets every variable of `extra`, in key order, over those of `env`.
pub fn env_extend(env: &mut StrMap<String>, extra: &StrMap<String>)
    ensures
        env_view(final(env)@) == env_view(old(env)@).union_prefer_right(env_view(extra@)),
{
    proof {
        use_type_invariant(extra);
    }
    let mut i: usize = 0;
    while i < extra.len()
        invariant
            i <= extra@.len(),
            crate::strmap::sorted_keys(extra@),
            env_view(env@) == env_view(old(env)@).union_prefer_right(env_view(extra@.take(i as int))),
        decreases extra@.len() - i,
    {
        let k = extra.key_at(i);
        let v = extra.value_at(i).clone();
        let ghost prefix = extra@.take(i as int);
        let ghost next = extra@.take(i + 1);
        env_set(env, k.as_str(), v);
        proof {
            assert(next =~= prefix.push(extra@[i as int]));
            lemma_env_push(prefix, extra@[i as int].0, extra@[i as int].1, next);
        }
        i = i + 1;
    }
    assert(extra@.take(extra@.len() as int) =~= extra@);
}

/// Appending an entry with a new, greater key adds it to the environment.
proof fn lemma_env_push(prefix: Seq<(Seq<char>, String)>, k: Seq<char>, v: String, next: Seq<(Seq<char>, String)>)
    requires
        next == prefix.push((k, v)),
        crate::strmap::sorted_keys(next),
    ensures
        env_view(next) == env_view(prefix).insert(k, v@),
{
    assert(crate::strmap::sorted_keys(prefix)) by {
        assert forall|a: int, b: int| 0 <= a < b < prefix.len() implies crate::order::seq_lt(
            #[trigger] prefix[a].0,
            #[trigger] prefix[b].0,
        ) by {
            assert(prefix[a] == next[a]);
            assert(prefix[b] == next[b]);
        }
    }
    assert(!crate::strmap::has_key(prefix, k)) by {
        if crate::strmap::has_key(prefix, k) {
            let j = choose|j: int| 0 <= j < prefix.len() && #[trigger] prefix[j].0 == k;
            assert(next[j].0 == k);
            assert(next[prefix.len() as int].0 == k);
            crate::order::lemma_lt_irreflexive(k);
        }
    }
    assert(next == prefix.insert(prefix.len() as int, (k, v)));
    assert(crate::strmap::inserted(prefix, k, v, next));
    lemma_insert_map(prefix, k, v, next);
    assert(env_view(next) =~= env_view(prefix).insert(k, v@));
}

/// The variables every runtime command starts from: `HOME`, `TMPDIR`, a
/// standard `PATH`, `LANG=C.UTF-8` and the system CA bundle.
pub open spec fn minimal_environment_spec(home: Seq<char>, tmp: Seq<char>) -> Map<Seq<char>, Seq<char>> {
    Map::<Seq<char>, Seq<char>>::empty()
        .insert("HOME"@, home)
        .insert("PATH"@, "/usr/local/sbin:/usr/local/bin:/usr/sbin:/usr/bin:/sbin:/bin"@)
        .insert("TMPDIR"@, tmp)
        .insert("LANG"@, "C.UTF-8"@)
        .insert("SSL_CERT_FILE"@, "/etc/ssl/certs/ca-certificates.crt"@)
}

/// Builds the minimal environment for a home and temporary directory.
pub fn minimal_environment(home: &str, tmp: &str) -> (m: StrMap<String>)
    ensures
        env_view(m@) == minimal_environment_spec(home@, tmp@),
{
    let mut m: StrMap<String> = StrMap::new();
    assert(env_view(m@) =~= Map::<Seq<char>, Seq<char>>::empty());
    env_set(&mut m, "HOME", home.to_owned());
    env_set(&mut m, "PATH", "/usr/local/sbin:/usr/local/bin:/usr/sbin:/usr/bin:/sbin:/bin".to_owned());
    env_set(&mut m, "TMPDIR", tmp.to_owned());
    env_set(&mut m, "LANG", "C.UTF-8".to_owned());
    env_set(&mut m, "SSL_CERT_FILE", "/etc/ssl/certs/ca-certificates.crt".to_owned());
    m
}

} // verus!
