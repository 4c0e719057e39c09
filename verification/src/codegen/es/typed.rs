//! `#[derive(Event)]` macro on structs, implementing `event::Typed` from the
//! `fqn` and `revision` arguments.

use vstd::prelude::*;

use crate::codegen::error::DeriveError;
use crate::codegen::input::{Data, DeriveInput};
use crate::es::event::codegen::str_eq;

verus! {

/// One argument of the `#[event(...)]` attribute as written: its name and its
/// value.
#[derive(Clone, Debug)]
pub struct AttrArg {
    /// Name of the argument.
    pub name: String,
    /// Value of the argument, as written.
    pub value: String,
}

/// Arguments of the `#[event(...)]` attribute.
#[derive(Clone, Debug, Default)]
pub struct Attrs {
    /// Fully qualified name of the event (`fqn`).
    pub fqn: Option<String>,
    /// Revision of the event (`rev` or `revision`).
    pub revision: Option<String>,
}

/// Which field of [`Attrs`] the argument named `name` sets, if any.
pub enum ArgKind {
    /// `fqn`.
    Fqn,
    /// `rev` or `revision`.
    Revision,
}

/// Which field of [`Attrs`] the argument named `name` sets, or [`None`] if
/// it is not known.
pub open spec fn arg_kind(name: Seq<char>) -> Option<ArgKind> {
    if name == "fqn"@ {
        Some(ArgKind::Fqn)
    } else if name == "rev"@ || name == "revision"@ {
        Some(ArgKind::Revision)
    } else {
        None
    }
}

/// `attrs` with `arg` added, or why it can't be: its name is unknown, or it
/// was given already.
pub open spec fn with_arg(attrs: Attrs, arg: AttrArg) -> Result<Attrs, DeriveError> {
    match arg_kind(arg.name@) {
        None => Err(DeriveError::UnknownArgument(arg.name)),
        Some(ArgKind::Fqn) => if attrs.fqn is Some {
            Err(DeriveError::DuplicatedArgument)
        } else {
            Ok(Attrs { fqn: Some(arg.value), ..attrs })
        },
        Some(ArgKind::Revision) => if attrs.revision is Some {
            Err(DeriveError::DuplicatedArgument)
        } else {
            Ok(Attrs { revision: Some(arg.value), ..attrs })
        },
    }
}

/// The [`Attrs`] that `args` make, read in order, or the error of the first
/// argument refused.
pub open spec fn attrs_of(args: Seq<AttrArg>) -> Result<Attrs, DeriveError>
    decreases args.len(),
{
    if args.len() == 0 {
        Ok(Attrs { fqn: None, revision: None })
    } else {
        match attrs_of(args.drop_last()) {
            Err(e) => Err(e),
            Ok(attrs) => with_arg(attrs, args.last()),
        }
    }
}

/// Once a prefix of `args` is refused, all of them are, for the same reason.
proof fn lemma_attrs_of_error(args: Seq<AttrArg>, i: int)
    requires
        0 <= i <= args.len(),
        attrs_of(args.take(i)) is Err,
    ensures
        attrs_of(args) == attrs_of(args.take(i)),
    decreases args.len(),
{
    if i == args.len() {
        assert(args.take(i) =~= args);
    } else {
        assert(args.drop_last().take(i) =~= args.take(i));
        lemma_attrs_of_error(args.drop_last(), i);
    }
}

/// Whether `name` is that of the `fqn` argument.
pub open spec fn names_fqn(name: Seq<char>) -> bool {
    name == "fqn"@
}

/// Whether `name` is that of the revision argument, in its short or long
/// form.
pub open spec fn names_revision(name: Seq<char>) -> bool {
    name == "rev"@ || name == "revision"@
}

/// Whether `args` name only known arguments, each of them at most once.
pub open spec fn args_acceptable(args: Seq<AttrArg>) -> bool {
    &&& forall|i: int|
        0 <= i < args.len() ==> names_fqn((#[trigger] args[i]).name@) || names_revision(
            args[i].name@,
        )
    &&& forall|i: int, j: int|
        #![trigger args[i], args[j]]
        0 <= i < j < args.len() && names_fqn(args[i].name@) ==> !names_fqn(args[j].name@)
    &&& forall|i: int, j: int|
        #![trigger args[i], args[j]]
        0 <= i < j < args.len() && names_revision(args[i].name@) ==> !names_revision(
            args[j].name@,
        )
}

/// Whatever order they come in, the arguments are accepted exactly when each
/// is known and none is repeated, and then the `fqn` is `Some(v)` exactly
/// when an argument named `fqn` has the value `v`, and the revision likewise
/// for an argument named `rev` or `revision`.
pub proof fn lemma_attrs_of_arguments(args: Seq<AttrArg>)
    ensures
        attrs_of(args) is Ok <==> args_acceptable(args),
        attrs_of(args) matches Ok(attrs) ==> {
            &&& forall|i: int|
                0 <= i < args.len() && names_fqn((#[trigger] args[i]).name@) ==> attrs.fqn == Some(
                    args[i].value,
                )
            &&& (attrs.fqn is None <==> forall|i: int|
                0 <= i < args.len() ==> !names_fqn((#[trigger] args[i]).name@))
            &&& forall|i: int|
                0 <= i < args.len() && names_revision((#[trigger] args[i]).name@)
                    ==> attrs.revision == Some(args[i].value)
            &&& (attrs.revision is None <==> forall|i: int|
                0 <= i < args.len() ==> !names_revision((#[trigger] args[i]).name@))
        },
    decreases args.len(),
{
    reveal_strlit("fqn");
    reveal_strlit("rev");
    reveal_strlit("revision");
    if args.len() == 0 {
        return;
    }
    let p = args.drop_last();
    let n = p.len() as int;
    let l = args.last();
    lemma_attrs_of_arguments(p);
    assert forall|i: int| 0 <= i < n implies #[trigger] p[i] == args[i] by {}
    assert(args[n] == l);
    assert("fqn"@[0] != "rev"@[0]);
    assert("fqn"@.len() != "revision"@.len());
    assert(!(names_fqn(l.name@) && names_revision(l.name@)));
    if args_acceptable(args) {
        assert(args_acceptable(p)) by {
            assert forall|i: int, j: int| 0 <= i < j < n implies p[i] == args[i] && p[j]
                == args[j] by {}
        }
    }
    match attrs_of(p) {
        Err(_) => {},
        Ok(a) => {
            if names_fqn(l.name@) {
                if a.fqn is Some {
                    let i = choose|i: int| 0 <= i < n && names_fqn(p[i].name@);
                    assert(p[i] == args[i]);
                    assert(!args_acceptable(args));
                } else {
                    assert(args_acceptable(args)) by {
                        assert forall|i: int, j: int|
                            0 <= i < j < args.len() && names_fqn(args[i].name@) implies !names_fqn(
                            args[j].name@,
                        ) by {
                            assert(p[i] == args[i]);
                            if j < n {
                                assert(p[j] == args[j]);
                            }
                        }
                        assert forall|i: int, j: int|
                            0 <= i < j < args.len() && names_revision(
                                args[i].name@,
                            ) implies !names_revision(args[j].name@) by {
                            assert(p[i] == args[i]);
                            if j < n {
                                assert(p[j] == args[j]);
                            }
                        }
                        assert forall|i: int| 0 <= i < args.len() implies names_fqn(
                            (#[trigger] args[i]).name@,
                        ) || names_revision(args[i].name@) by {
                            if i < n {
                                assert(p[i] == args[i]);
                            }
                        }
                    }
                    assert forall|i: int|
                        0 <= i < args.len() && names_fqn(
                            (#[trigger] args[i]).name@,
                        ) implies i == n by {
                        if i < n {
                            assert(p[i] == args[i]);
                        }
                    }
                    assert forall|i: int|
                        0 <= i < args.len() && names_revision(
                            (#[trigger] args[i]).name@,
                        ) implies i < n && names_revision(p[i].name@) by {}
                }
            } else if names_revision(l.name@) {
                if a.revision is Some {
                    let i = choose|i: int| 0 <= i < n && names_revision(p[i].name@);
                    assert(p[i] == args[i]);
                    assert(!args_acceptable(args));
                } else {
                    assert(args_acceptable(args)) by {
                        assert forall|i: int, j: int|
                            0 <= i < j < args.len() && names_fqn(args[i].name@) implies !names_fqn(
                            args[j].name@,
                        ) by {
                            assert(p[i] == args[i]);
                            if j < n {
                                assert(p[j] == args[j]);
                            }
                        }
                        assert forall|i: int, j: int|
                            0 <= i < j < args.len() && names_revision(
                                args[i].name@,
                            ) implies !names_revision(args[j].name@) by {
                            assert(p[i] == args[i]);
                            if j < n {
                                assert(p[j] == args[j]);
                            }
                        }
                        assert forall|i: int| 0 <= i < args.len() implies names_fqn(
                            (#[trigger] args[i]).name@,
                        ) || names_revision(args[i].name@) by {
                            if i < n {
                                assert(p[i] == args[i]);
                            }
                        }
                    }
                    assert forall|i: int|
                        0 <= i < args.len() && names_revision(
                            (#[trigger] args[i]).name@,
                        ) implies i == n by {
                        if i < n {
                            assert(p[i] == args[i]);
                        }
                    }
                    assert forall|i: int|
                        0 <= i < args.len() && names_fqn(
                            (#[trigger] args[i]).name@,
                        ) implies i < n && names_fqn(p[i].name@) by {}
                }
            } else {
                assert(!args_acceptable(args));
            }
        },
    }
}

/// Whether the argument named `name` is known, and which one it is.
fn kind_of(name: &str) -> (res: Option<ArgKind>)
    ensures
        res == arg_kind(name@),
{
    if str_eq(name, "fqn") {
        Some(ArgKind::Fqn)
    } else if str_eq(name, "rev") || str_eq(name, "revision") {
        Some(ArgKind::Revision)
    } else {
        None
    }
}

impl Attrs {
    /// Parses the arguments of the `#[event(...)]` attribute, in order,
    /// refusing unknown and duplicated ones.
    pub fn parse(args: Vec<AttrArg>) -> (res: Result<Attrs, DeriveError>)
        ensures
            res == attrs_of(args@),
            res is Ok <==> args_acceptable(args@),
            res matches Ok(attrs) ==> {
                &&& forall|i: int|
                    0 <= i < args@.len() && names_fqn((#[trigger] args@[i]).name@) ==> attrs.fqn
                        == Some(args@[i].value)
                &&& (attrs.fqn is None <==> forall|i: int|
                    0 <= i < args@.len() ==> !names_fqn((#[trigger] args@[i]).name@))
                &&& forall|i: int|
                    0 <= i < args@.len() && names_revision((#[trigger] args@[i]).name@)
                        ==> attrs.revision == Some(args@[i].value)
                &&& (attrs.revision is None <==> forall|i: int|
                    0 <= i < args@.len() ==> !names_revision((#[trigger] args@[i]).name@))
            },
    {
        let ghost all = args@;
        let mut rest = args;
        let total = rest.len();
        let mut output = Attrs { fqn: None, revision: None };
        let mut i: usize = 0;
        while i < total
            invariant
                total == all.len(),
                i <= total,
                args@ == all,
                rest@ == all.skip(i as int),
                attrs_of(all.take(i as int)) == Ok::<Attrs, DeriveError>(output),
            decreases total - i,
        {
            let arg = rest.remove(0);
            proof {
                assert(arg == all[i as int]);
                assert(all.take(i as int + 1).drop_last() =~= all.take(i as int));
                assert(all.take(i as int + 1).last() == all[i as int]);
                assert(rest@ =~= all.skip(i as int + 1));
            }
            let kind = kind_of(arg.name.as_str());
            let step = match kind {
                None => Err(DeriveError::UnknownArgument(arg.name)),
                Some(ArgKind::Fqn) => if output.fqn.is_some() {
                    Err(DeriveError::DuplicatedArgument)
                } else {
                    Ok(Attrs { fqn: Some(arg.value), revision: output.revision })
                },
                Some(ArgKind::Revision) => if output.revision.is_some() {
                    Err(DeriveError::DuplicatedArgument)
                } else {
                    Ok(Attrs { fqn: output.fqn, revision: Some(arg.value) })
                },
            };
            match step {
                Err(e) => {
                    proof {
                        lemma_attrs_of_error(all, i as int + 1);
                        lemma_attrs_of_arguments(all);
                    }
                    return Err(e);
                },
                Ok(next) => {
                    output = next;
                },
            }
            i += 1;
        }
        proof {
            assert(all.take(total as int) =~= all);
            lemma_attrs_of_arguments(all);
        }
        Ok(output)
    }
}

/// Checks that `#[derive(Event)]` is placed on a struct, and parses the
/// arguments of its `#[event(...)]` attribute.
pub fn derive<A, V>(input: &DeriveInput<A, V>, args: Vec<AttrArg>) -> (res: Result<
    Attrs,
    DeriveError,
>)
    ensures
        !(input.data is Struct) ==> res == Err::<Attrs, DeriveError>(
            DeriveError::OnlyStructsCanDerive,
        ),
        input.data is Struct ==> res == attrs_of(args@),
{
    if !matches!(input.data, Data::Struct) {
        return Err(DeriveError::OnlyStructsCanDerive);
    }
    Attrs::parse(args)
}

} // verus!
