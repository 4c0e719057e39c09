//! Arguments of a helper attribute: which names are known, with their
//! aliases, and refusal of unknown and duplicated arguments.

use vstd::prelude::*;

use crate::codegen::error::DeriveError;
use crate::codegen::es::typed::AttrArg;
use crate::es::event::codegen::str_eq;

verus! {

/// The names of the arguments of an attribute, each argument with its
/// aliases, as plain text.
pub open spec fn names_view(names: Seq<Vec<&str>>) -> Seq<Seq<Seq<char>>> {
    names.map_values(|aliases: Vec<&str>| aliases@.map_values(|s: &str| s@))
}

/// Position of the first argument from `k` on that `name` names.
pub open spec fn slot_from(names: Seq<Seq<Seq<char>>>, name: Seq<char>, k: int) -> Option<int>
    decreases names.len() - k,
{
    if k < 0 || k >= names.len() {
        None
    } else if names[k].contains(name) {
        Some(k)
    } else {
        slot_from(names, name, k + 1)
    }
}

/// The values of the arguments `args`, read in order, at the positions of
/// the arguments they name; or the error of the first argument refused: one
/// of an unknown name, or one given already.
pub open spec fn slots_of(names: Seq<Seq<Seq<char>>>, args: Seq<AttrArg>) -> Result<
    Seq<Option<String>>,
    DeriveError,
>
    decreases args.len(),
{
    if args.len() == 0 {
        Ok(Seq::new(names.len(), |i: int| None))
    } else {
        match slots_of(names, args.drop_last()) {
            Err(e) => Err(e),
            Ok(slots) => match slot_from(names, args.last().name@, 0) {
                None => Err(DeriveError::UnknownArgument(args.last().name)),
                Some(k) => if slots[k] is Some {
                    Err(DeriveError::DuplicatedArgument)
                } else {
                    Ok(slots.update(k, Some(args.last().value)))
                },
            },
        }
    }
}

/// Once a prefix of `args` is refused, all of them are, for the same reason.
proof fn lemma_slots_of_error(names: Seq<Seq<Seq<char>>>, args: Seq<AttrArg>, i: int)
    requires
        0 <= i <= args.len(),
        slots_of(names, args.take(i)) is Err,
    ensures
        slots_of(names, args) == slots_of(names, args.take(i)),
    decreases args.len(),
{
    if i == args.len() {
        assert(args.take(i) =~= args);
    } else {
        assert(args.drop_last().take(i) =~= args.take(i));
        lemma_slots_of_error(names, args.drop_last(), i);
    }
}

/// An argument found among `names` is at one of their positions.
proof fn lemma_slot_from_range(names: Seq<Seq<Seq<char>>>, name: Seq<char>, k: int)
    ensures
        slot_from(names, name, k) matches Some(j) ==> 0 <= j < names.len(),
    decreases names.len() - k,
{
    if 0 <= k < names.len() && !names[k].contains(name) {
        lemma_slot_from_range(names, name, k + 1);
    }
}

/// The slots made of a run of arguments are as many as the names.
proof fn lemma_slots_of_len(names: Seq<Seq<Seq<char>>>, args: Seq<AttrArg>)
    requires
        slots_of(names, args) is Ok,
    ensures
        slots_of(names, args)->Ok_0.len() == names.len(),
    decreases args.len(),
{
    if args.len() > 0 {
        lemma_slots_of_len(names, args.drop_last());
        lemma_slot_from_range(names, args.last().name@, 0);
    }
}

/// A slot found from `k` on is the slot found from `0`, when none before `k`
/// matches.
proof fn lemma_slot_from_step(names: Seq<Seq<Seq<char>>>, name: Seq<char>, k: int)
    requires
        0 <= k < names.len(),
        !names[k].contains(name),
    ensures
        slot_from(names, name, k) == slot_from(names, name, k + 1),
{
}

/// The argument that `name` names, searching from `m` on, is the first
/// position from `m` on among whose aliases it is.
pub proof fn lemma_slot_from_first_match(names: Seq<Seq<Seq<char>>>, name: Seq<char>, m: int, k: int)
    requires
        0 <= m,
    ensures
        slot_from(names, name, m) == Some(k) <==> {
            &&& m <= k < names.len()
            &&& names[k].contains(name)
            &&& forall|j: int| m <= j < k ==> !(#[trigger] names[j]).contains(name)
        },
    decreases names.len() - m,
{
    if m < names.len() && !names[m].contains(name) {
        lemma_slot_from_first_match(names, name, m + 1, k);
        if m + 1 <= k < names.len() && names[k].contains(name) && forall|j: int|
            m + 1 <= j < k ==> !(#[trigger] names[j]).contains(name) {
            assert forall|j: int| m <= j < k implies !(#[trigger] names[j]).contains(name) by {
                if j > m {
                    assert(m + 1 <= j < k);
                }
            }
        }
    }
}

/// Whatever order they come in, the arguments are accepted exactly when each
/// names a known argument and no two name the same one; then each known
/// argument holds the value of the argument naming it, and none where no
/// argument names it.
pub proof fn lemma_slots_of_arguments(names: Seq<Seq<Seq<char>>>, args: Seq<AttrArg>)
    ensures
        slots_of(names, args) is Ok <==> {
            &&& forall|i: int|
                0 <= i < args.len() ==> slot_from(names, (#[trigger] args[i]).name@, 0) is Some
            &&& forall|i: int, j: int|
                #![trigger args[i], args[j]]
                0 <= i < j < args.len() ==> slot_from(names, args[i].name@, 0) != slot_from(
                    names,
                    args[j].name@,
                    0,
                )
        },
        slots_of(names, args) matches Ok(slots) ==> {
            &&& slots.len() == names.len()
            &&& forall|i: int|
                0 <= i < args.len() ==> (slot_from(names, (#[trigger] args[i]).name@, 0) matches Some(
                    k,
                ) ==> slots[k] == Some(args[i].value))
            &&& forall|k: int|
                0 <= k < names.len() ==> ((#[trigger] slots[k]) is None <==> forall|i: int|
                    0 <= i < args.len() ==> slot_from(names, (#[trigger] args[i]).name@, 0) != Some(
                        k,
                    ))
        },
    decreases args.len(),
{
    if args.len() == 0 {
        return;
    }
    let p = args.drop_last();
    let n = p.len() as int;
    let l = args.last();
    lemma_slots_of_arguments(names, p);
    lemma_slot_from_range(names, l.name@, 0);
    assert forall|i: int| 0 <= i < n implies #[trigger] p[i] == args[i] by {}
    assert(args[n] == l);
    let accepted = {
        &&& forall|i: int|
            0 <= i < args.len() ==> slot_from(names, (#[trigger] args[i]).name@, 0) is Some
        &&& forall|i: int, j: int|
            #![trigger args[i], args[j]]
            0 <= i < j < args.len() ==> slot_from(names, args[i].name@, 0) != slot_from(
                names,
                args[j].name@,
                0,
            )
    };
    if accepted {
        assert forall|i: int, j: int| 0 <= i < j < n implies slot_from(names, p[i].name@, 0)
            != slot_from(names, p[j].name@, 0) by {
            assert(p[i] == args[i] && p[j] == args[j]);
        }
        assert forall|i: int| 0 <= i < n implies slot_from(names, (#[trigger] p[i]).name@, 0) is Some by {
            assert(p[i] == args[i]);
        }
    }
    match slots_of(names, p) {
        Err(_) => {},
        Ok(ps) => {
            match slot_from(names, l.name@, 0) {
                None => {},
                Some(k) => {
                    if ps[k] is Some {
                        let i = choose|i: int|
                            0 <= i < n && slot_from(names, (#[trigger] p[i]).name@, 0) == Some(k);
                        assert(p[i] == args[i]);
                        assert(!accepted);
                    } else {
                        let slots = ps.update(k, Some(l.value));
                        assert(slots_of(names, args) == Ok::<Seq<Option<String>>, DeriveError>(slots));
                        assert forall|i: int, j: int|
                            #![trigger args[i], args[j]]
                            0 <= i < j < args.len() implies slot_from(names, args[i].name@, 0)
                            != slot_from(names, args[j].name@, 0) by {
                            assert(p[i] == args[i]);
                            if j < n {
                                assert(p[j] == args[j]);
                            }
                        }
                        assert forall|i: int| 0 <= i < args.len() implies slot_from(
                            names,
                            (#[trigger] args[i]).name@,
                            0,
                        ) is Some by {
                            if i < n {
                                assert(p[i] == args[i]);
                            }
                        }
                        assert forall|i: int| 0 <= i < args.len() implies (slot_from(
                            names,
                            (#[trigger] args[i]).name@,
                            0,
                        ) matches Some(k2) ==> slots[k2] == Some(args[i].value)) by {
                            if i < n {
                                assert(p[i] == args[i]);
                                lemma_slot_from_range(names, p[i].name@, 0);
                            }
                        }
                        assert forall|k2: int| 0 <= k2 < names.len() implies ((
                        #[trigger] slots[k2]) is None <==> forall|i: int|
                            0 <= i < args.len() ==> slot_from(names, (#[trigger] args[i]).name@, 0)
                                != Some(k2)) by {
                            if k2 == k {
                                assert(slot_from(names, args[n].name@, 0) == Some(k));
                            } else {
                                if slots[k2] is None {
                                    assert forall|i: int| 0 <= i < args.len() implies slot_from(
                                        names,
                                        (#[trigger] args[i]).name@,
                                        0,
                                    ) != Some(k2) by {
                                        if i < n {
                                            assert(p[i] == args[i]);
                                        }
                                    }
                                } else {
                                    let i = choose|i: int|
                                        0 <= i < n && slot_from(names, (#[trigger] p[i]).name@, 0)
                                            == Some(k2);
                                    assert(p[i] == args[i]);
                                }
                            }
                        }
                    }
                },
            }
        },
    }
}

/// Whether `aliases` holds `name`.
fn names_argument(aliases: &Vec<&str>, name: &str) -> (res: bool)
    ensures
        res == aliases@.map_values(|s: &str| s@).contains(name@),
{
    let ghost view = aliases@.map_values(|s: &str| s@);
    let mut j: usize = 0;
    while j < aliases.len()
        invariant
            j <= aliases@.len(),
            view == aliases@.map_values(|s: &str| s@),
            forall|i: int| 0 <= i < j ==> view[i] != name@,
        decreases aliases@.len() - j,
    {
        if str_eq(aliases[j], name) {
            assert(view[j as int] == name@);
            return true;
        }
        j += 1;
    }
    assert(!view.contains(name@));
    false
}

/// Position of the argument that `name` names among `names`, if any.
fn slot_of(names: &Vec<Vec<&str>>, name: &str) -> (res: Option<usize>)
    ensures
        match res {
            Some(k) => Some(k as int),
            None => None,
        } == slot_from(names_view(names@), name@, 0),
{
    let ghost view = names_view(names@);
    let mut k: usize = 0;
    while k < names.len()
        invariant
            k <= names@.len(),
            view == names_view(names@),
            slot_from(view, name@, 0) == slot_from(view, name@, k as int),
        decreases names@.len() - k,
    {
        assert(view[k as int] == names@[k as int]@.map_values(|s: &str| s@));
        if names_argument(&names[k], name) {
            return Some(k);
        }
        proof {
            lemma_slot_from_step(view, name@, k as int);
        }
        k += 1;
    }
    None
}

/// Collects the values of the arguments `args` of an attribute whose
/// arguments are `names`, each with its aliases: the value of each argument
/// at its position, refusing an argument of an unknown name and one given
/// twice.
pub fn collect_args(names: &Vec<Vec<&str>>, args: Vec<AttrArg>) -> (res: Result<
    Vec<Option<String>>,
    DeriveError,
>)
    ensures
        match res {
            Ok(slots) => slots_of(names_view(names@), args@) == Ok::<
                Seq<Option<String>>,
                DeriveError,
            >(slots@),
            Err(e) => slots_of(names_view(names@), args@) == Err::<Seq<Option<String>>, DeriveError>(
                e,
            ),
        },
        res is Ok <==> {
            &&& forall|i: int|
                0 <= i < args@.len() ==> slot_from(names_view(names@), (#[trigger] args@[i]).name@, 0) is Some
            &&& forall|i: int, j: int|
                #![trigger args@[i], args@[j]]
                0 <= i < j < args@.len() ==> slot_from(names_view(names@), args@[i].name@, 0)
                    != slot_from(names_view(names@), args@[j].name@, 0)
        },
        res matches Ok(slots) ==> {
            &&& slots@.len() == names@.len()
            &&& forall|i: int|
                0 <= i < args@.len() ==> (slot_from(names_view(names@), (#[trigger] args@[i]).name@, 0)
                    matches Some(k) ==> slots@[k] == Some(args@[i].value))
            &&& forall|k: int|
                0 <= k < names@.len() ==> ((#[trigger] slots@[k]) is None <==> forall|i: int|
                    0 <= i < args@.len() ==> slot_from(names_view(names@), (#[trigger] args@[i]).name@, 0)
                        != Some(k))
        },
{
    let ghost view = names_view(names@);
    let ghost all = args@;
    let mut slots: Vec<Option<String>> = Vec::new();
    let mut n: usize = 0;
    while n < names.len()
        invariant
            n <= names@.len(),
            slots@ =~= Seq::new(n as nat, |i: int| None::<String>),
        decreases names@.len() - n,
    {
        slots.push(None);
        n += 1;
    }
    let mut rest = args;
    let total = rest.len();
    let mut i: usize = 0;
    while i < total
        invariant
            total == all.len(),
            args@ == all,
            view == names_view(names@),
            view.len() == names@.len(),
            i <= total,
            rest@ == all.skip(i as int),
            slots_of(view, all.take(i as int)) == Ok::<Seq<Option<String>>, DeriveError>(slots@),
        decreases total - i,
    {
        let arg = rest.remove(0);
        proof {
            assert(arg == all[i as int]);
            assert(all.take(i as int + 1).drop_last() =~= all.take(i as int));
            assert(all.take(i as int + 1).last() == all[i as int]);
            assert(rest@ =~= all.skip(i as int + 1));
            lemma_slots_of_len(view, all.take(i as int));
        }
        proof {
            lemma_slot_from_range(view, arg.name@, 0);
        }
        match slot_of(names, arg.name.as_str()) {
            None => {
                proof {
                    lemma_slots_of_error(view, all, i as int + 1);
                    lemma_slots_of_arguments(view, all);
                }
                return Err(DeriveError::UnknownArgument(arg.name));
            },
            Some(k) => {
                if slots[k].is_some() {
                    proof {
                        lemma_slots_of_error(view, all, i as int + 1);
                        lemma_slots_of_arguments(view, all);
                    }
                    return Err(DeriveError::DuplicatedArgument);
                }
                let AttrArg { name: _, value } = arg;
                slots.set(k, Some(value));
            },
        }
        i += 1;
    }
    proof {
        assert(all.take(total as int) =~= all);
        lemma_slots_of_arguments(view, all);
    }
    Ok(slots)
}

} // verus!
