use vstd::prelude::*;

use super::file::Program;

verus! {

/// The shader names of the programs, in order: fragment, vertex and geometry
/// of each program. Empty names are absent stages.
pub open spec fn program_shaders(programs: Seq<Program>) -> Seq<Seq<char>>
    decreases programs.len(),
{
    if programs.len() == 0 {
        Seq::empty()
    } else {
        let p = programs.last();
        program_shaders(programs.drop_last()) + seq![p.fragment@, p.vertex@, p.geometry@]
    }
}

/// `names` with `x` added unless `x` is empty or already there.
pub open spec fn add_name(names: Seq<Seq<char>>, x: Seq<char>) -> Seq<Seq<char>> {
    if x.len() == 0 || holds(names, x) {
        names
    } else {
        names.push(x)
    }
}

/// The nonempty names of `s`, each once, in the order they first appear.
pub open spec fn first_seen(s: Seq<Seq<char>>) -> Seq<Seq<char>>
    decreases s.len(),
{
    if s.len() == 0 {
        Seq::empty()
    } else {
        add_name(first_seen(s.drop_last()), s.last())
    }
}

/// Whether `s` holds each name once.
pub open spec fn no_duplicates(s: Seq<Seq<char>>) -> bool {
    forall|i: int, j: int| 0 <= i < j < s.len() ==> #[trigger] s[i] != #[trigger] s[j]
}

/// Whether `s` holds `x`.
pub open spec fn holds(s: Seq<Seq<char>>, x: Seq<char>) -> bool {
    exists|i: int| 0 <= i < s.len() && #[trigger] s[i] == x
}

/// Adding `x` to `n` (or leaving `n` as it is when `x` is empty or held)
/// keeps the names distinct, nonempty and taken from `from`, and holds what
/// was held and `x` if nonempty.
proof fn lemma_add_keeps(n: Seq<Seq<char>>, m: Seq<Seq<char>>, x: Seq<char>, from: Seq<Seq<char>>)
    requires
        (x.len() == 0 || holds(n, x)) ==> m == n,
        !(x.len() == 0 || holds(n, x)) ==> m == n.push(x),
        no_duplicates(n),
        forall|i: int| 0 <= i < n.len() ==> (#[trigger] n[i]).len() > 0 && holds(from, n[i]),
        holds(from, x),
    ensures
        no_duplicates(m),
        forall|i: int| 0 <= i < m.len() ==> (#[trigger] m[i]).len() > 0 && holds(from, m[i]),
        forall|y: Seq<char>| holds(n, y) ==> holds(m, y),
        x.len() > 0 ==> holds(m, x),
{
    if !(x.len() == 0 || holds(n, x)) {
        assert(m[n.len() as int] == x);
        assert forall|y: Seq<char>| holds(n, y) implies holds(m, y) by {
            let i = choose|i: int| 0 <= i < n.len() && #[trigger] n[i] == y;
            assert(m[i] == y);
        }
        assert forall|i: int, j: int| 0 <= i < j < m.len() implies #[trigger] m[i] != #[trigger] m[j] by {
            if j == n.len() {
                assert(m[i] == n[i]);
            } else {
                assert(m[i] == n[i] && m[j] == n[j]);
            }
        }
        assert forall|i: int| 0 <= i < m.len() implies (#[trigger] m[i]).len() > 0 && holds(from, m[i]) by {
            if i < n.len() {
                assert(m[i] == n[i]);
            }
        }
    }
}

/// Adds `name` to `names` unless it is empty or already there.
fn add_shader(names: &mut Vec<String>, name: &String)
    ensures
        (name@.len() == 0 || holds(old(names)@.map_values(|n: String| n@), name@))
            ==> final(names)@ == old(names)@,
        !(name@.len() == 0 || holds(old(names)@.map_values(|n: String| n@), name@))
            ==> final(names)@.map_values(|n: String| n@) == old(names)@.map_values(
            |n: String| n@,
        ).push(name@),
{
    if name.as_str().is_empty() {
        return ;
    }
    let ghost v = names@.map_values(|n: String| n@);
    let mut i: usize = 0;
    while i < names.len()
        invariant
            i <= names.len(),
            names@ == old(names)@,
            v == names@.map_values(|n: String| n@),
            forall|j: int| 0 <= j < i ==> v[j] != name@,
        decreases names.len() - i,
    {
        if names[i] == *name {
            proof {
                assert(v[i as int] == name@);
            }
            return ;
        }
        i = i + 1;
    }
    let ghost old_names = names@;
    names.push(name.clone());
    proof {
        assert(names@.map_values(|n: String| n@) =~= v.push(name@));
    }
}

/// The shaders the programs use, each once, without the absent ones: the
/// files to compile, since a shader can serve several programs.
pub fn shaders_to_compile(programs: &Vec<Program>) -> (r: Vec<String>)
    ensures
        r@.map_values(|n: String| n@) == first_seen(program_shaders(programs@)),
        no_duplicates(r@.map_values(|n: String| n@)),
        forall|i: int|
            0 <= i < r.len() ==> (#[trigger] r@[i])@.len() > 0 && holds(
                program_shaders(programs@),
                r@[i]@,
            ),
        forall|i: int|
            0 <= i < program_shaders(programs@).len() && (#[trigger] program_shaders(
                programs@,
            )[i]).len() > 0 ==> holds(
                r@.map_values(|n: String| n@),
                program_shaders(programs@)[i],
            ),
{
    let mut names: Vec<String> = Vec::new();
    let mut k: usize = 0;
    while k < programs.len()
        invariant
            k <= programs.len(),
            no_duplicates(names@.map_values(|n: String| n@)),
            names@.map_values(|n: String| n@) == first_seen(program_shaders(programs@.take(k as int))),
            forall|i: int|
                0 <= i < names.len() ==> (#[trigger] names@[i])@.len() > 0 && holds(
                    program_shaders(programs@.take(k as int)),
                    names@[i]@,
                ),
            forall|i: int|
                0 <= i < program_shaders(programs@.take(k as int)).len() && (
                #[trigger] program_shaders(programs@.take(k as int))[i]).len() > 0 ==> holds(
                    names@.map_values(|n: String| n@),
                    program_shaders(programs@.take(k as int))[i],
                ),
        decreases programs.len() - k,
    {
        let p = &programs[k];
        let ghost before = program_shaders(programs@.take(k as int));
        let ghost after = program_shaders(programs@.take(k as int + 1));
        proof {
            assert(programs@.take(k as int + 1).drop_last() == programs@.take(k as int));
            assert(programs@.take(k as int + 1).last() == *p);
            assert(after == before + seq![p.fragment@, p.vertex@, p.geometry@]);
        }
        proof {
            assert(holds(after, p.fragment@)) by {
                assert(after[before.len() as int] == p.fragment@);
            }
            assert(holds(after, p.vertex@)) by {
                assert(after[before.len() as int + 1] == p.vertex@);
            }
            assert(holds(after, p.geometry@)) by {
                assert(after[before.len() as int + 2] == p.geometry@);
            }
            let nm = names@.map_values(|n: String| n@);
            assert forall|i: int| 0 <= i < nm.len() implies (#[trigger] nm[i]).len() > 0 && holds(
                after,
                nm[i],
            ) by {
                assert(nm[i] == names@[i]@);
                let j = choose|j: int| 0 <= j < before.len() && #[trigger] before[j] == nm[i];
                assert(after[j] == nm[i]);
            }
        }
        let ghost n0 = names@.map_values(|n: String| n@);
        add_shader(&mut names, &p.fragment);
        let ghost n1 = names@.map_values(|n: String| n@);
        proof {
            lemma_add_keeps(n0, n1, p.fragment@, after);
        }
        add_shader(&mut names, &p.vertex);
        let ghost n2 = names@.map_values(|n: String| n@);
        proof {
            lemma_add_keeps(n1, n2, p.vertex@, after);
        }
        add_shader(&mut names, &p.geometry);
        let ghost n3 = names@.map_values(|n: String| n@);
        proof {
            lemma_add_keeps(n2, n3, p.geometry@, after);
            let b1 = before.push(p.fragment@);
            let b2 = b1.push(p.vertex@);
            assert(after == b2.push(p.geometry@));
            assert(after.drop_last() == b2);
            assert(b2.drop_last() == b1);
            assert(b1.drop_last() == before);
            assert(first_seen(b1) == add_name(first_seen(before), p.fragment@));
            assert(first_seen(b2) == add_name(first_seen(b1), p.vertex@));
            assert(first_seen(after) == add_name(first_seen(b2), p.geometry@));
            assert forall|i: int|
                0 <= i < after.len() && (#[trigger] after[i]).len() > 0 implies holds(n3, after[i]) by {
                if i < before.len() {
                    assert(after[i] == before[i]);
                } else if i == before.len() {
                    assert(after[i] == p.fragment@);
                } else if i == before.len() + 1 {
                    assert(after[i] == p.vertex@);
                } else {
                    assert(after[i] == p.geometry@);
                }
            }
            assert forall|i: int| 0 <= i < names.len() implies (#[trigger] names@[i])@.len() > 0
                && holds(after, names@[i]@) by {
                assert(names@[i]@ == n3[i]);
            }
        }
        k = k + 1;
    }
    proof {
        assert(programs@.take(k as int) == programs@);
    }
    names
}

} // verus!
