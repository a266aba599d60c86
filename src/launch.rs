//! What a launch of the instrumented application is given: its argument
//! list and the environment that loads the interception layer.
use vstd::prelude::*;

verus! {

/// Where the interception layer's manifest lies, relative to the working
/// directory of the tool.
pub const LAYER_MANIFEST_PATH: &'static str = "../../vmi-layer/VK_LAYER_vmi.json";

/// The name under which the interception layer registers with the loader.
pub const LAYER_NAME: &'static str = "VK_LAYER_AV_vmi";

/// Whether `c` has Unicode's White_Space property, as `char::is_whitespace`
/// decides it.
pub uninterp spec fn white_space(c: char) -> bool;

/// Relies on `char::is_whitespace`: the answer depends on the character alone.
#[verifier::external_body]
fn is_white_space(c: char) -> (r: bool)
    ensures
        r == white_space(c),
{
    c.is_whitespace()
}

/// The words still to come when `s` is read with `cur` already gathered as
/// the start of the current word.
pub open spec fn split_from(s: Seq<char>, cur: Seq<char>) -> Seq<Seq<char>>
    decreases s.len(),
{
    if s.len() == 0 {
        if cur.len() > 0 {
            seq![cur]
        } else {
            Seq::empty()
        }
    } else if white_space(s[0]) {
        (if cur.len() > 0 {
            seq![cur]
        } else {
            Seq::empty()
        }) + split_from(s.drop_first(), Seq::empty())
    } else {
        split_from(s.drop_first(), cur.push(s[0]))
    }
}

/// The maximal runs of non-white-space characters of `s`, in order.
pub open spec fn words(s: Seq<char>) -> Seq<Seq<char>> {
    split_from(s, Seq::empty())
}

pub open spec fn strings_view(v: Seq<String>) -> Seq<Seq<char>> {
    v.map_values(|w: String| w@)
}

/// Splits a command line into its arguments: the runs of characters between
/// white space, none of them empty.
pub fn split_arguments(s: &str) -> (r: Vec<String>)
    ensures
        strings_view(r@) == words(s@),
{
    let n = s.unicode_len();
    let mut out: Vec<String> = Vec::new();
    let mut start: usize = 0;
    let mut i: usize = 0;
    assert(s@.skip(0) =~= s@);
    assert(s@.subrange(0, 0) =~= Seq::<char>::empty());
    assert(strings_view(out@) + words(s@) =~= words(s@));
    while i < n
        invariant
            n == s@.len(),
            start <= i <= n,
            strings_view(out@) + split_from(s@.skip(i as int), s@.subrange(start as int, i as int))
                == words(s@),
        decreases n - i,
    {
        let c = s.get_char(i);
        let ghost rest = s@.skip(i as int);
        let ghost cur = s@.subrange(start as int, i as int);
        assert(rest[0] == c);
        assert(rest.drop_first() =~= s@.skip(i + 1));
        if is_white_space(c) {
            if start < i {
                let w = s.substring_char(start, i).to_owned();
                proof {
                    assert(strings_view(out@.push(w)) =~= strings_view(out@) + seq![cur]);
                }
                out.push(w);
                assert(strings_view(out@) + split_from(s@.skip(i + 1), Seq::empty()) =~=
                    strings_view(out@.drop_last()) + split_from(rest, cur));
            } else {
                assert(cur.len() == 0);
                assert(split_from(rest, cur) =~= Seq::<Seq<char>>::empty() + split_from(s@.skip(i + 1), Seq::empty()));
            }
            start = i + 1;
            assert(s@.subrange(start as int, start as int) =~= Seq::<char>::empty());
        } else {
            assert(cur.push(c) =~= s@.subrange(start as int, i + 1));
        }
        i = i + 1;
    }
    let ghost cur = s@.subrange(start as int, n as int);
    assert(s@.skip(n as int) =~= Seq::<char>::empty());
    if start < n {
        let w = s.substring_char(start, n).to_owned();
        proof {
            assert(strings_view(out@.push(w)) =~= strings_view(out@) + seq![cur]);
        }
        out.push(w);
    } else {
        assert(strings_view(out@) + Seq::<Seq<char>>::empty() =~= strings_view(out@));
    }
    out
}

pub open spec fn pairs_view(v: Seq<(String, String)>) -> Seq<(Seq<char>, Seq<char>)> {
    v.map_values(|kv: (String, String)| (kv.0@, kv.1@))
}

/// The environment that makes the loader pick up the interception layer
/// from the manifest at `layer`; with `debug_loader`, the loader also
/// reports everything it does.
pub open spec fn launch_env(layer: Seq<char>, debug_loader: bool) -> Seq<(Seq<char>, Seq<char>)> {
    let base = seq![
        ("VK_ADD_IMPLICIT_LAYER_PATH"@, layer),
        ("VK_LAYERS_ALLOW_ENV_VAR"@, "1"@),
        ("VK_INSTANCE_LAYERS"@, LAYER_NAME@),
        ("VK_LOADER_LAYERS_ENABLE"@, LAYER_NAME@),
        ("ENABLE_VMI_LAYER"@, "1"@),
    ];
    if debug_loader {
        base.push(("VK_LOADER_DEBUG"@, "all"@))
    } else {
        base
    }
}

fn push_var(env: &mut Vec<(String, String)>, key: &str, value: &str)
    ensures
        pairs_view(final(env)@) == pairs_view(old(env)@).push((key@, value@)),
{
    let kv = (key.to_owned(), value.to_owned());
    env.push(kv);
    assert(pairs_view(env@) =~= pairs_view(old(env)@).push((key@, value@)));
}

/// The environment variables of a launch, given the full path of the layer
/// manifest: each name with its value, in a fixed order.
pub fn launch_environment(layer_path: &str, debug_loader: bool) -> (r: Vec<(String, String)>)
    ensures
        pairs_view(r@) == launch_env(layer_path@, debug_loader),
{
    let mut env: Vec<(String, String)> = Vec::new();
    push_var(&mut env, "VK_ADD_IMPLICIT_LAYER_PATH", layer_path);
    push_var(&mut env, "VK_LAYERS_ALLOW_ENV_VAR", "1");
    push_var(&mut env, "VK_INSTANCE_LAYERS", LAYER_NAME);
    push_var(&mut env, "VK_LOADER_LAYERS_ENABLE", LAYER_NAME);
    push_var(&mut env, "ENABLE_VMI_LAYER", "1");
    if debug_loader {
        push_var(&mut env, "VK_LOADER_DEBUG", "all");
    }
    assert(pairs_view(Seq::<(String, String)>::empty()) =~= Seq::<(Seq<char>, Seq<char>)>::empty());
    proof {
        let b = launch_env(layer_path@, false);
        assert(b =~= Seq::<(Seq<char>, Seq<char>)>::empty().push(b[0]).push(b[1]).push(b[2]).push(b[3]).push(b[4]));
    }
    env
}

} // verus!
