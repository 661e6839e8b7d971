use vstd::prelude::*;

use crate::text::{chars_of, replace_all, replace_chars, string_of};

verus! {

/// The separator that ends an environment variable in a path.
pub const PATH_SEPARATOR: char = '/';

/// The environment variables named in `s` from index `i` on: each `$` begins one, which runs up
/// to the next separator (the `$` kept, the separator not). `var` is the variable begun so far.
/// None if a variable runs to the end of the path.
pub open spec fn scan_vars(s: Seq<char>, i: int, var: Option<Seq<char>>) -> Option<Seq<Seq<char>>>
    decreases s.len() - i,
{
    if i >= s.len() {
        match var {
            Some(_) => None,
            None => Some(seq![]),
        }
    } else {
        match var {
            Some(v) => if s[i] == PATH_SEPARATOR {
                match scan_vars(s, i + 1, None) {
                    None => None,
                    Some(rest) => Some(seq![v] + rest),
                }
            } else {
                scan_vars(s, i + 1, Some(v.push(s[i])))
            },
            None => if s[i] == '$' {
                scan_vars(s, i + 1, Some(seq!['$']))
            } else {
                scan_vars(s, i + 1, None)
            },
        }
    }
}

/// `path` with `vars[k]` replaced by `values[k]`, for each `k` in turn.
pub open spec fn substitute(path: Seq<char>, vars: Seq<Seq<char>>, values: Seq<Seq<char>>) -> Seq<
    char,
>
    decreases vars.len(),
{
    if vars.len() == 0 || values.len() == 0 {
        path
    } else {
        substitute(replace_all(path, vars[0], values[0]), vars.drop_first(), values.drop_first())
    }
}

/// The path with every `~` replaced by the home directory.
pub fn expand_home(path: &str, home: &str) -> (r: String)
    ensures
        r@ == replace_all(path@, seq!['~'], home@),
{
    let tilde: Vec<char> = vec!['~'];
    assert(tilde@ =~= seq!['~']);
    string_of(&replace_chars(&chars_of(path), &tilde, &chars_of(home)))
}

/// The environment variables that `path` names, each with its `$` (see `scan_vars`); none if one
/// runs to the end of the path.
pub fn env_vars(path: &str) -> (r: Option<Vec<String>>)
    ensures
        r is Some <==> scan_vars(path@, 0, None) is Some,
        r is Some ==> r->0@.map_values(|v: String| v@) == scan_vars(path@, 0, None)->0,
{
    let s = chars_of(path);
    let mut out: Vec<String> = Vec::new();
    let mut var: Vec<char> = Vec::new();
    let mut in_var = false;
    let mut i: usize = 0;
    while i < s.len()
        invariant
            s@ == path@,
            i <= s@.len(),
            scan_vars(path@, 0, None) == match scan_vars(
                s@,
                i as int,
                if in_var {
                    Some(var@)
                } else {
                    None
                },
            ) {
                None => None,
                Some(rest) => Some(out@.map_values(|v: String| v@) + rest),
            },
        decreases s@.len() - i,
    {
        let c = s[i];
        if in_var {
            if c == PATH_SEPARATOR {
                let ghost before = out@.map_values(|v: String| v@);
                let ghost vv = var@;
                out.push(string_of(&var));
                var = Vec::new();
                in_var = false;
                proof {
                    let after = scan_vars(s@, i + 1, None);
                    match after {
                        None => {},
                        Some(rest) => {
                            assert(out@.map_values(|v: String| v@) =~= before.push(vv));
                            assert(before + (seq![vv] + rest) =~= before.push(vv) + rest);
                        },
                    }
                }
            } else {
                var.push(c);
            }
        } else if c == '$' {
            var = Vec::new();
            var.push('$');
            in_var = true;
            assert(var@ =~= seq!['$']);
        }
        i = i + 1;
    }
    if in_var {
        return None;
    }
    assert(out@.map_values(|v: String| v@) + Seq::<Seq<char>>::empty() =~= out@.map_values(
        |v: String| v@,
    ));
    Some(out)
}

/// `path` with each of `vars` replaced, in turn, by the value at the same place in `values`.
pub fn substitute_vars(path: &str, vars: &Vec<String>, values: &Vec<String>) -> (r: String)
    requires
        forall|k: int| 0 <= k < vars@.len() ==> (#[trigger] vars@[k])@.len() > 0,
        vars@.len() == values@.len(),
    ensures
        r@ == substitute(
            path@,
            vars@.map_values(|v: String| v@),
            values@.map_values(|v: String| v@),
        ),
{
    let ghost vs = vars@.map_values(|v: String| v@);
    let ghost xs = values@.map_values(|v: String| v@);
    let mut cur = chars_of(path);
    let mut k: usize = 0;
    assert(vs.skip(0) =~= vs);
    assert(xs.skip(0) =~= xs);
    while k < vars.len()
        invariant
            vars@.len() == values@.len(),
            forall|m: int| 0 <= m < vars@.len() ==> (#[trigger] vars@[m])@.len() > 0,
            vs == vars@.map_values(|v: String| v@),
            xs == values@.map_values(|v: String| v@),
            k <= vars@.len(),
            substitute(path@, vs, xs) == substitute(cur@, vs.skip(k as int), xs.skip(k as int)),
        decreases vars@.len() - k,
    {
        let var = chars_of(vars[k].as_str());
        let value = chars_of(values[k].as_str());
        assert(vs.skip(k as int)[0] == var@);
        assert(xs.skip(k as int)[0] == value@);
        assert(vs.skip(k as int).drop_first() =~= vs.skip(k + 1));
        assert(xs.skip(k as int).drop_first() =~= xs.skip(k + 1));
        cur = replace_chars(&cur, &var, &value);
        k = k + 1;
    }
    assert(vs.skip(k as int).len() == 0);
    string_of(&cur)
}

} // verus!
