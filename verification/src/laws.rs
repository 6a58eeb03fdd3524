//! What holds of every parse and of every reading of a value, proved from
//! the model.
use crate::arg::{ArgView, Type, ValueView};
use crate::convert::{
    canonical_text, conversion, lemma_canonical_text_reads_back, lemma_conversion_conforms,
    RealReadingView,
};
use crate::error::{GetError, ParseFailure};
use crate::model::{
    all_wf, lemma_position_in_range, lemma_position_unique, lemma_register,
    lemma_registered_sorted, parse_outcome, position, rank_from, reading_at, registered, reset_all,
    resolve, sorted_by_name, step, take_value, validate, walk, Outcome, Progress,
};
use crate::text::{flag_name, is_flag, is_help};
use vstd::prelude::*;

verus! {

/// Whether the pending argument, if there is one, is one of the arguments.
pub open spec fn pending_in_range(args: Seq<ArgView>, pending: Option<int>) -> bool {
    match pending {
        Some(p) => 0 <= p < args.len(),
        None => true,
    }
}

/// Whether only arguments that were met hold a value, and the pending
/// argument was met.
pub open spec fn values_follow_flags(args: Seq<ArgView>, pending: Option<int>) -> bool {
    &&& forall|i: int| 0 <= i < args.len() && (#[trigger] args[i]).value is Some ==> args[i].found
    &&& match pending {
        Some(p) => 0 <= p < args.len() ==> args[p].found,
        None => true,
    }
}

/// Whether two lists of arguments declare the same, place by place: they
/// differ at most in what a parse left.
pub open spec fn same_declarations(a: Seq<ArgView>, b: Seq<ArgView>) -> bool {
    &&& a.len() == b.len()
    &&& forall|i: int| 0 <= i < a.len() ==> (#[trigger] a[i]).reset() == b[i].reset()
}

/// One step of the walk changes nothing of what was declared, keeps values
/// with the arguments that were met, and leaves every value that it does not
/// set.
pub proof fn lemma_step_frame(
    args: Seq<ArgView>,
    pending: Option<int>,
    token: Seq<char>,
    reals: Option<RealReadingView>,
)
    requires
        pending_in_range(args, pending),
    ensures
        same_declarations(step(args, pending, token, reals).args, args),
        pending_in_range(
            step(args, pending, token, reals).args,
            step(args, pending, token, reals).pending,
        ),
        values_follow_flags(args, pending) ==> values_follow_flags(
            step(args, pending, token, reals).args,
            step(args, pending, token, reals).pending,
        ),
        forall|i: int|
            0 <= i < args.len() && pending != Some(i) ==> (#[trigger] step(
                args,
                pending,
                token,
                reals,
            ).args[i]).value == args[i].value,
        forall|i: int|
            0 <= i < args.len() && args[i].found ==> (#[trigger] step(
                args,
                pending,
                token,
                reals,
            ).args[i]).found,
{
    let taken = take_value(args, pending, token, reals);
    if taken.failure is None {
        lemma_position_in_range(taken.args, flag_name(token));
    }
}

/// The walk changes nothing of what was declared, and keeps values with the
/// arguments that were met.
pub proof fn lemma_walk_frame(
    args: Seq<ArgView>,
    pending: Option<int>,
    tokens: Seq<Seq<char>>,
    reals: Seq<RealReadingView>,
    from: int,
)
    requires
        pending_in_range(args, pending),
    ensures
        same_declarations(walk(args, pending, tokens, reals, from).args, args),
        values_follow_flags(args, pending) ==> values_follow_flags(
            walk(args, pending, tokens, reals, from).args,
            None,
        ),
    decreases tokens.len() - from,
{
    if 0 <= from < tokens.len() {
        let next = step(args, pending, tokens[from], reading_at(reals, from));
        lemma_step_frame(args, pending, tokens[from], reading_at(reals, from));
        if next.failure is None {
            lemma_walk_frame(next.args, next.pending, tokens, reals, from + 1);
        }
    }
}

/// The validation leaves every argument as it was or as it settles; the
/// arguments before the place `from` it leaves as they were.
pub proof fn lemma_validate_frame(args: Seq<ArgView>, from: int)
    requires
        0 <= from,
    ensures
        validate(args, from).args.len() == args.len(),
        forall|i: int|
            0 <= i < args.len() ==> (#[trigger] validate(args, from).args[i]) == args[i] || (
            from <= i && args[i].settle() is Ok && validate(args, from).args[i]
                == args[i].settle()->Ok_0),
        forall|i: int|
            validate(args, from).failure is None && from <= i < args.len() ==> (
            #[trigger] args[i].settle()) is Ok && validate(args, from).args[i]
                == args[i].settle()->Ok_0,
    decreases args.len() - from,
{
    if from < args.len() && args[from].settle() is Ok {
        let next = args.update(from, args[from].settle()->Ok_0);
        lemma_validate_frame(next, from + 1);
        assert forall|i: int|
            validate(args, from).failure is None && from <= i < args.len() implies (
        #[trigger] args[i].settle()) is Ok && validate(args, from).args[i]
            == args[i].settle()->Ok_0 by {
            if i != from {
                assert(next[i].settle() is Ok);
            }
        }
    }
}

/// A parse changes nothing of what was declared.
pub proof fn lemma_parse_keeps_declarations(
    args: Seq<ArgView>,
    tokens: Seq<Seq<char>>,
    reals: Seq<RealReadingView>,
)
    ensures
        same_declarations(parse_outcome(args, tokens, reals).args, args),
{
    let start = reset_all(args);
    lemma_walk_frame(start, None, tokens, reals, 0);
    let walked = walk(start, None, tokens, reals, 0);
    lemma_validate_frame(walked.args, 0);
}

/// What a parse leaves depends on what was declared and on the tokens, and
/// on nothing that an earlier parse left: a parse after another parse ends
/// as it would have ended alone.
pub proof fn law_parse_forgets_earlier_parse(
    args: Seq<ArgView>,
    earlier_tokens: Seq<Seq<char>>,
    earlier_reals: Seq<RealReadingView>,
    tokens: Seq<Seq<char>>,
    reals: Seq<RealReadingView>,
)
    ensures
        parse_outcome(parse_outcome(args, earlier_tokens, earlier_reals).args, tokens, reals)
            == parse_outcome(args, tokens, reals),
{
    let between = parse_outcome(args, earlier_tokens, earlier_reals).args;
    lemma_parse_keeps_declarations(args, earlier_tokens, earlier_reals);
    assert(reset_all(between) =~= reset_all(args));
}

/// Reading the value of an argument at a type that stands for another kind
/// than the declared one fails with `TypeMismatch`, whatever the argument
/// holds.
pub proof fn law_other_kind_is_mismatch(args: Seq<ArgView>, i: int, declared: Type, wanted: Type)
    requires
        sorted_by_name(args),
        0 <= i < args.len(),
        args[i].kind == Some(declared),
        wanted != declared,
    ensures
        resolve(args, args[i].name, wanted) == Err::<ValueView, GetError>(GetError::TypeMismatch),
{
    lemma_position_unique(args, i);
}

/// An argument that was not met, is not required and has no default is
/// settled as it is.
pub proof fn law_unseen_optional_settles(arg: ArgView)
    requires
        !arg.found,
        !arg.required,
        arg.default is None,
    ensures
        arg.settle() == Ok::<ArgView, ParseFailure>(arg),
{
}

/// After a parse, an argument that takes a value, was not met and has no
/// default has no value to read: reading it at its kind fails with
/// `NoValueNoDefault`.
pub proof fn law_unseen_without_default_has_no_value(
    args: Seq<ArgView>,
    tokens: Seq<Seq<char>>,
    reals: Seq<RealReadingView>,
    i: int,
    kind: Type,
)
    requires
        sorted_by_name(args),
        0 <= i < args.len(),
        args[i].kind == Some(kind),
        args[i].default is None,
        !parse_outcome(args, tokens, reals).args[i].found,
    ensures
        resolve(parse_outcome(args, tokens, reals).args, args[i].name, kind) == Err::<
            ValueView,
            GetError,
        >(GetError::NoValueNoDefault),
{
    let start = reset_all(args);
    let walked = walk(start, None, tokens, reals, 0);
    let end = parse_outcome(args, tokens, reals).args;
    lemma_walk_frame(start, None, tokens, reals, 0);
    lemma_validate_frame(walked.args, 0);
    lemma_parse_keeps_declarations(args, tokens, reals);
    lemma_names_kept(args, end);
    lemma_position_unique(end, i);
}

/// Arguments that declare the same as arguments in the order of their names
/// stand in that order too.
pub proof fn lemma_names_kept(args: Seq<ArgView>, other: Seq<ArgView>)
    requires
        sorted_by_name(args),
        same_declarations(other, args),
    ensures
        sorted_by_name(other),
{
}

/// If no argument is required or has a default, and no token asks for help
/// or is the flag of a registered argument, the parse succeeds and leaves
/// every argument unmet and without a value.
pub proof fn law_nothing_given_nothing_needed(
    args: Seq<ArgView>,
    tokens: Seq<Seq<char>>,
    reals: Seq<RealReadingView>,
)
    requires
        forall|i: int|
            0 <= i < args.len() ==> !(#[trigger] args[i]).required && args[i].default is None,
        forall|k: int|
            0 <= k < tokens.len() ==> !is_help(#[trigger] tokens[k]) && !(is_flag(tokens[k])
                && position(args, flag_name(tokens[k])) is Some),
    ensures
        parse_outcome(args, tokens, reals) == (Outcome { args: reset_all(args), failure: None }),
{
    let start = reset_all(args);
    lemma_quiet_walk(start, tokens, reals, 0);
    lemma_quiet_validate(start, 0);
}

/// A walk over tokens of which none asks for help or is the flag of an
/// argument changes nothing.
proof fn lemma_quiet_walk(
    args: Seq<ArgView>,
    tokens: Seq<Seq<char>>,
    reals: Seq<RealReadingView>,
    from: int,
)
    requires
        forall|k: int|
            0 <= k < tokens.len() ==> !is_help(#[trigger] tokens[k]) && !(is_flag(tokens[k])
                && position(args, flag_name(tokens[k])) is Some),
    ensures
        walk(args, None, tokens, reals, from) == (Progress { args, pending: None, failure: None }),
    decreases tokens.len() - from,
{
    if 0 <= from < tokens.len() {
        lemma_quiet_walk(args, tokens, reals, from + 1);
    }
}

/// The validation of arguments that are unmet, not required and without a
/// default changes nothing and succeeds.
proof fn lemma_quiet_validate(args: Seq<ArgView>, from: int)
    requires
        0 <= from,
        forall|i: int|
            0 <= i < args.len() ==> !(#[trigger] args[i]).required && args[i].default is None
                && !args[i].found,
    ensures
        validate(args, from) == (Outcome { args, failure: None }),
    decreases args.len() - from,
{
    if from < args.len() {
        assert(args.update(from, args[from]) =~= args);
        lemma_quiet_validate(args, from + 1);
    }
}

/// After a parse, an argument that was not met and has a default of its
/// declared kind reads as that default.
pub proof fn law_unseen_reads_as_default(
    args: Seq<ArgView>,
    tokens: Seq<Seq<char>>,
    reals: Seq<RealReadingView>,
    i: int,
    kind: Type,
    default: ValueView,
)
    requires
        sorted_by_name(args),
        0 <= i < args.len(),
        args[i].kind == Some(kind),
        args[i].default == Some(default),
        default.kind == kind,
        !parse_outcome(args, tokens, reals).args[i].found,
    ensures
        resolve(parse_outcome(args, tokens, reals).args, args[i].name, kind) == Ok::<
            ValueView,
            GetError,
        >(default),
{
    let start = reset_all(args);
    let walked = walk(start, None, tokens, reals, 0);
    let end = parse_outcome(args, tokens, reals).args;
    lemma_walk_frame(start, None, tokens, reals, 0);
    lemma_validate_frame(walked.args, 0);
    lemma_parse_keeps_declarations(args, tokens, reals);
    lemma_names_kept(args, end);
    lemma_position_unique(end, i);
}

/// The token that is the flag of a name.
pub open spec fn flag_of(name: Seq<char>) -> Seq<char> {
    "--"@ + name
}

/// The flag of a name is a flag, and carries that name.
pub proof fn lemma_flag_of(name: Seq<char>)
    requires
        name.len() > 0,
    ensures
        is_flag(flag_of(name)),
        flag_name(flag_of(name)) == name,
{
    reveal_strlit("--");
}

/// A flag followed by a token that converts to a value of the argument's
/// kind: after the parse the argument was met and reads as that value,
/// whatever else the registry holds and however the parse ends.
pub proof fn law_value_after_flag_is_read_back(
    args: Seq<ArgView>,
    i: int,
    kind: Type,
    text: Seq<char>,
    reals: Seq<RealReadingView>,
    value: ValueView,
)
    requires
        sorted_by_name(args),
        0 <= i < args.len(),
        args[i].kind == Some(kind),
        args[i].name.len() > 0,
        !is_help(flag_of(args[i].name)),
        conversion(kind, text, reading_at(reals, 1)) == Ok::<ValueView, Seq<char>>(value),
        value.kind == kind,
    ensures
        parse_outcome(args, seq![flag_of(args[i].name), text], reals).args.len() == args.len(),
        parse_outcome(args, seq![flag_of(args[i].name), text], reals).args[i].found,
        parse_outcome(args, seq![flag_of(args[i].name), text], reals).args[i].value == Some(value),
        resolve(
            parse_outcome(args, seq![flag_of(args[i].name), text], reals).args,
            args[i].name,
            kind,
        ) == Ok::<ValueView, GetError>(value),
{
    let name = args[i].name;
    let tokens = seq![flag_of(name), text];
    let start = reset_all(args);
    lemma_flag_of(name);
    lemma_names_kept(args, start);
    lemma_position_unique(start, i);
    let first = step(start, None, tokens[0], reading_at(reals, 0));
    let taken = take_value(first.args, first.pending, text, reading_at(reals, 1));
    let second = step(first.args, first.pending, tokens[1], reading_at(reals, 1));
    lemma_position_in_range(taken.args, flag_name(text));
    let walked = walk(start, None, tokens, reals, 0);
    assert(walk(second.args, second.pending, tokens, reals, 2).args == second.args);
    assert(walk(first.args, first.pending, tokens, reals, 1).args == second.args);
    lemma_validate_frame(walked.args, 0);
    let end = parse_outcome(args, tokens, reals).args;
    lemma_parse_keeps_declarations(args, tokens, reals);
    lemma_names_kept(args, end);
    lemma_position_unique(end, i);
}

/// Round trip: a flag followed by the text that denotes a value of the
/// argument's kind. After the parse the argument reads as that value. This
/// holds at every kind that is not real, for every value of the kind.
pub proof fn law_round_trip(
    args: Seq<ArgView>,
    i: int,
    value: ValueView,
    reals: Seq<RealReadingView>,
)
    requires
        sorted_by_name(args),
        0 <= i < args.len(),
        args[i].kind == Some(value.kind),
        args[i].name.len() > 0,
        !is_help(flag_of(args[i].name)),
        value.conforms(),
        !value.kind.is_real(),
    ensures
        resolve(
            parse_outcome(
                args,
                seq![flag_of(args[i].name), canonical_text(value)],
                reals,
            ).args,
            args[i].name,
            value.kind,
        ) == Ok::<ValueView, GetError>(value),
{
    lemma_canonical_text_reads_back(value, reading_at(reals, 1));
    law_value_after_flag_is_read_back(
        args,
        i,
        value.kind,
        canonical_text(value),
        reals,
        value,
    );
}

/// The walk over tokens of which the one at the place `at` asks for help
/// ends in a failure, at that token or before it, and no token after it
/// has a part in how it ends.
proof fn lemma_walk_ends_at_help(
    args: Seq<ArgView>,
    pending: Option<int>,
    tokens: Seq<Seq<char>>,
    reals: Seq<RealReadingView>,
    from: int,
    at: int,
)
    requires
        0 <= from <= at < tokens.len(),
        is_help(tokens[at]),
    ensures
        walk(args, pending, tokens, reals, from).failure is Some,
        walk(args, pending, tokens, reals, from).failure->0 is HelpRequested || walk(
            args,
            pending,
            tokens,
            reals,
            from,
        ).failure->0 is ConversionError,
        walk(args, pending, tokens, reals, from) == walk(
            args,
            pending,
            tokens.take(at + 1),
            reals,
            from,
        ),
    decreases at - from,
{
    let next = step(args, pending, tokens[from], reading_at(reals, from));
    if next.failure is None {
        lemma_walk_ends_at_help(next.args, next.pending, tokens, reals, from + 1, at);
    }
}

/// Where a token asks for help, the parse fails: with the request for help,
/// or with the failure of a conversion at that token or before it. It never
/// succeeds and never reports a missing argument, and the tokens after the
/// request have no part in what it leaves.
pub proof fn law_help_ends_parse(
    args: Seq<ArgView>,
    tokens: Seq<Seq<char>>,
    reals: Seq<RealReadingView>,
    at: int,
)
    requires
        0 <= at < tokens.len(),
        is_help(tokens[at]),
    ensures
        parse_outcome(args, tokens, reals).failure is Some,
        parse_outcome(args, tokens, reals).failure->0 is HelpRequested || parse_outcome(
            args,
            tokens,
            reals,
        ).failure->0 is ConversionError,
        parse_outcome(args, tokens, reals) == parse_outcome(args, tokens.take(at + 1), reals),
{
    lemma_walk_ends_at_help(reset_all(args), None, tokens, reals, 0, at);
}

/// Where no argument takes a value, a token that asks for help makes the
/// parse end with the request for help.
pub proof fn law_help_without_values(
    args: Seq<ArgView>,
    tokens: Seq<Seq<char>>,
    reals: Seq<RealReadingView>,
    at: int,
)
    requires
        0 <= at < tokens.len(),
        is_help(tokens[at]),
        forall|i: int| 0 <= i < args.len() ==> (#[trigger] args[i]).kind is None,
    ensures
        parse_outcome(args, tokens, reals).failure == Some(ParseFailure::HelpRequested),
{
    let start = reset_all(args);
    lemma_walk_without_values(start, tokens, reals, 0, at);
}

/// The walk over arguments of which none takes a value never converts a
/// token, so it ends with the first request for help.
proof fn lemma_walk_without_values(
    args: Seq<ArgView>,
    tokens: Seq<Seq<char>>,
    reals: Seq<RealReadingView>,
    from: int,
    at: int,
)
    requires
        0 <= from <= at < tokens.len(),
        is_help(tokens[at]),
        forall|i: int| 0 <= i < args.len() ==> (#[trigger] args[i]).kind is None,
    ensures
        walk(args, None, tokens, reals, from).failure == Some(ParseFailure::HelpRequested),
    decreases at - from,
{
    let next = step(args, None, tokens[from], reading_at(reals, from));
    if next.failure is None {
        lemma_position_in_range(args, flag_name(tokens[from]));
        lemma_walk_without_values(next.args, tokens, reals, from + 1, at);
    }
}

/// After a parse that succeeded, every argument is settled: a required
/// argument was met or has a default, and an argument that takes a value
/// and was met, or has a default, holds a value.
pub proof fn law_success_settles_every_argument(
    args: Seq<ArgView>,
    tokens: Seq<Seq<char>>,
    reals: Seq<RealReadingView>,
    i: int,
)
    requires
        0 <= i < args.len(),
        parse_outcome(args, tokens, reals).failure is None,
    ensures
        parse_outcome(args, tokens, reals).args.len() == args.len(),
        args[i].required ==> parse_outcome(args, tokens, reals).args[i].found
            || args[i].default is Some,
        args[i].kind is Some && (parse_outcome(args, tokens, reals).args[i].found
            || args[i].default is Some) ==> parse_outcome(args, tokens, reals).args[i].value
            is Some,
{
    let start = reset_all(args);
    let walked = walk(start, None, tokens, reals, 0);
    lemma_walk_frame(start, None, tokens, reals, 0);
    lemma_validate_frame(walked.args, 0);
}

/// The validation fails with the failure of the first argument, in the
/// order of names, that cannot be settled; the arguments before it are
/// settled, that one and those after it are left as they were.
pub proof fn law_first_failure_in_order(args: Seq<ArgView>, from: int)
    requires
        0 <= from,
        validate(args, from).failure is Some,
    ensures
        exists|k: int|
            {
                &&& from <= k < args.len()
                &&& #[trigger] args[k].settle() == Err::<ArgView, ParseFailure>(
                    validate(args, from).failure->0,
                )
                &&& forall|j: int| from <= j < k ==> (#[trigger] args[j].settle()) is Ok
                &&& forall|j: int|
                    from <= j < k ==> (#[trigger] validate(args, from).args[j])
                        == args[j].settle()->Ok_0
                &&& forall|j: int|
                    k <= j < args.len() ==> (#[trigger] validate(args, from).args[j]) == args[j]
            },
    decreases args.len() - from,
{
    if args[from].settle() is Ok {
        let next = args.update(from, args[from].settle()->Ok_0);
        law_first_failure_in_order(next, from + 1);
        lemma_validate_frame(next, from + 1);
        let k = choose|k: int|
            {
                &&& from + 1 <= k < next.len()
                &&& #[trigger] next[k].settle() == Err::<ArgView, ParseFailure>(
                    validate(next, from + 1).failure->0,
                )
                &&& forall|j: int| from + 1 <= j < k ==> (#[trigger] next[j].settle()) is Ok
                &&& forall|j: int|
                    from + 1 <= j < k ==> (#[trigger] validate(next, from + 1).args[j])
                        == next[j].settle()->Ok_0
                &&& forall|j: int|
                    k <= j < next.len() ==> (#[trigger] validate(next, from + 1).args[j])
                        == next[j]
            };
        assert forall|j: int| from <= j < k implies (#[trigger] args[j].settle()) is Ok by {
            if j > from {
                assert(next[j].settle() is Ok);
            }
        }
    }
}

/// A parse succeeds exactly if the walk meets no failure and every argument,
/// as the walk left it, can be settled.
pub proof fn law_success_iff_all_settle(
    args: Seq<ArgView>,
    tokens: Seq<Seq<char>>,
    reals: Seq<RealReadingView>,
)
    ensures
        parse_outcome(args, tokens, reals).failure is None <==> walk(
            reset_all(args),
            None,
            tokens,
            reals,
            0,
        ).failure is None && forall|i: int|
            0 <= i < args.len() ==> (#[trigger] walk(
                reset_all(args),
                None,
                tokens,
                reals,
                0,
            ).args[i].settle()) is Ok,
{
    let walked = walk(reset_all(args), None, tokens, reals, 0);
    lemma_walk_frame(reset_all(args), None, tokens, reals, 0);
    lemma_validate_frame(walked.args, 0);
    if walked.failure is None && validate(walked.args, 0).failure is Some {
        law_first_failure_in_order(walked.args, 0);
    }
}

/// A failure of the validation names its cause. A missing argument is
/// required, was not met and has no default. An argument that needs a
/// value takes one, was met without one and has no default. A default that
/// is refused belongs to an argument of another kind, or to a flag that
/// takes no value.
pub proof fn law_failure_names_its_cause(
    args: Seq<ArgView>,
    tokens: Seq<Seq<char>>,
    reals: Seq<RealReadingView>,
)
    requires
        walk(reset_all(args), None, tokens, reals, 0).failure is None,
        parse_outcome(args, tokens, reals).failure is Some,
    ensures
        exists|i: int|
            {
                &&& 0 <= i < args.len()
                &&& (#[trigger] parse_outcome(args, tokens, reals).args[i]).settle() == Err::<
                    ArgView,
                    ParseFailure,
                >(parse_outcome(args, tokens, reals).failure->0)
                &&& match parse_outcome(args, tokens, reals).failure->0 {
                    ParseFailure::MissingRequired { name } => {
                        &&& name == args[i].name
                        &&& args[i].required
                        &&& args[i].default is None
                        &&& !parse_outcome(args, tokens, reals).args[i].found
                    },
                    ParseFailure::MissingValue { name } => {
                        &&& name == args[i].name
                        &&& args[i].kind is Some
                        &&& args[i].default is None
                        &&& parse_outcome(args, tokens, reals).args[i].found
                        &&& parse_outcome(args, tokens, reals).args[i].value is None
                    },
                    ParseFailure::DefaultTypeMismatch { name } => {
                        &&& name == args[i].name
                        &&& args[i].kind is Some
                        &&& args[i].default is Some
                        &&& args[i].kind != Some(args[i].default->0.kind)
                    },
                    ParseFailure::MissingValueKind { name } => {
                        &&& name == args[i].name
                        &&& args[i].kind is None
                        &&& args[i].default is Some
                    },
                    _ => false,
                }
            },
{
    let start = reset_all(args);
    let walked = walk(start, None, tokens, reals, 0);
    lemma_walk_frame(start, None, tokens, reals, 0);
    law_first_failure_in_order(walked.args, 0);
    let end = parse_outcome(args, tokens, reals);
    let i = choose|k: int|
        {
            &&& 0 <= k < walked.args.len()
            &&& #[trigger] walked.args[k].settle() == Err::<ArgView, ParseFailure>(end.failure->0)
            &&& forall|j: int| 0 <= j < k ==> (#[trigger] walked.args[j].settle()) is Ok
            &&& forall|j: int|
                0 <= j < k ==> (#[trigger] validate(walked.args, 0).args[j])
                    == walked.args[j].settle()->Ok_0
            &&& forall|j: int|
                k <= j < walked.args.len() ==> (#[trigger] validate(walked.args, 0).args[j])
                    == walked.args[j]
        };
    assert(end.args[i] == walked.args[i]);
    assert(walked.args[i].reset() == start[i].reset());
    assert(end.args[i].settle() == Err::<ArgView, ParseFailure>(end.failure->0));
}

/// Of the arguments of a list that have one name, the last is the one that
/// is registered under that name.
pub proof fn law_last_registration_wins(list: Seq<ArgView>, n: int, i: int)
    requires
        0 <= i < n <= list.len(),
        forall|j: int| i < j < n ==> (#[trigger] list[j]).name != list[i].name,
    ensures
        position(registered(list, n), list[i].name) is Some,
        registered(list, n)[position(registered(list, n), list[i].name)->0] == list[i],
    decreases n,
{
    let before = registered(list, n - 1);
    let after = registered(list, n);
    lemma_registered_sorted(list, n - 1);
    lemma_registered_sorted(list, n);
    lemma_register(before, list[n - 1]);
    if i == n - 1 {
        lemma_position_unique(after, rank_from(before, list[n - 1].name, 0));
    } else {
        law_last_registration_wins(list, n - 1, i);
        let q = position(before, list[i].name)->0;
        lemma_position_in_range(before, list[i].name);
        let p = choose|p: int| 0 <= p < after.len() && after[p] == before[q];
        lemma_position_unique(after, p);
    }
}

/// Every registered argument is one of the list it was registered from.
pub proof fn law_registered_come_from_list(list: Seq<ArgView>, n: int, p: int)
    requires
        0 <= n <= list.len(),
        0 <= p < registered(list, n).len(),
    ensures
        exists|i: int| 0 <= i < n && #[trigger] list[i] == registered(list, n)[p],
    decreases n,
{
    if n > 0 {
        let before = registered(list, n - 1);
        let after = registered(list, n);
        lemma_registered_sorted(list, n - 1);
        lemma_register(before, list[n - 1]);
        if p != rank_from(before, list[n - 1].name, 0) {
            let q = choose|q: int| 0 <= q < before.len() && before[q] == after[p];
            law_registered_come_from_list(list, n - 1, q);
        }
    }
}

/// After a parse, an argument holds a value only if its flag was met or the
/// value is its default.
pub proof fn law_value_comes_from_token_or_default(
    args: Seq<ArgView>,
    tokens: Seq<Seq<char>>,
    reals: Seq<RealReadingView>,
    i: int,
)
    requires
        0 <= i < args.len(),
        parse_outcome(args, tokens, reals).args[i].value is Some,
    ensures
        parse_outcome(args, tokens, reals).args[i].found || parse_outcome(
            args,
            tokens,
            reals,
        ).args[i].value == args[i].default,
{
    let start = reset_all(args);
    let walked = walk(start, None, tokens, reals, 0);
    lemma_walk_frame(start, None, tokens, reals, 0);
    lemma_validate_frame(walked.args, 0);
}

/// Whether the token at a place is the flag of that name.
pub open spec fn is_flag_of(tokens: Seq<Seq<char>>, at: int, name: Seq<char>) -> bool {
    0 <= at < tokens.len() && is_flag(tokens[at]) && flag_name(tokens[at]) == name
}

/// Whether one of the tokens from the place `from` on is the flag of that
/// name.
pub open spec fn flag_given(tokens: Seq<Seq<char>>, name: Seq<char>, from: int) -> bool {
    exists|k: int| from <= k && #[trigger] is_flag_of(tokens, k, name)
}

/// Among arguments in the order of their names, a name is found at a place
/// exactly if the argument there has that name.
pub proof fn lemma_position_is(args: Seq<ArgView>, i: int, name: Seq<char>)
    requires
        sorted_by_name(args),
        0 <= i < args.len(),
    ensures
        position(args, name) == Some(i) <==> args[i].name == name,
{
    lemma_position_unique(args, i);
    lemma_position_in_range(args, name);
}

/// A walk that meets no failure leaves an argument met exactly if it was
/// met before or one of the tokens walked is its flag.
pub proof fn lemma_walk_meets_flags(
    args: Seq<ArgView>,
    pending: Option<int>,
    tokens: Seq<Seq<char>>,
    reals: Seq<RealReadingView>,
    from: int,
    i: int,
)
    requires
        sorted_by_name(args),
        pending_in_range(args, pending),
        0 <= i < args.len(),
        0 <= from,
        walk(args, pending, tokens, reals, from).failure is None,
    ensures
        walk(args, pending, tokens, reals, from).args[i].found <==> args[i].found || flag_given(
            tokens,
            args[i].name,
            from,
        ),
    decreases tokens.len() - from,
{
    let name = args[i].name;
    if from < tokens.len() {
        let token = tokens[from];
        let reading = reading_at(reals, from);
        let taken = take_value(args, pending, token, reading);
        let next = step(args, pending, token, reading);
        lemma_step_frame(args, pending, token, reading);
        assert(same_declarations(taken.args, args));
        lemma_names_kept(args, taken.args);
        lemma_names_kept(args, next.args);
        assert(taken.args[i].reset() == args[i].reset());
        assert(next.args[i].reset() == args[i].reset());
        lemma_position_is(taken.args, i, flag_name(token));
        lemma_position_in_range(taken.args, flag_name(token));
        lemma_walk_meets_flags(next.args, next.pending, tokens, reals, from + 1, i);
        assert(taken.args[i].found == args[i].found);
        assert(next.args[i].found <==> args[i].found || is_flag_of(tokens, from, name));
        if flag_given(tokens, name, from) {
            let k = choose|k: int| from <= k && #[trigger] is_flag_of(tokens, k, name);
            if k > from {
                assert(from + 1 <= k && is_flag_of(tokens, k, name));
            }
        }
        if flag_given(tokens, name, from + 1) {
            let k = choose|k: int| from + 1 <= k && #[trigger] is_flag_of(tokens, k, name);
            assert(from <= k && is_flag_of(tokens, k, name));
        }
        if is_flag_of(tokens, from, name) {
            assert(from <= from && is_flag_of(tokens, from, name));
        }
    }
}

/// After a parse in which no token asked for help and every value was
/// converted, an argument was met exactly if one of the tokens is its flag.
pub proof fn law_met_iff_flag_given(
    args: Seq<ArgView>,
    tokens: Seq<Seq<char>>,
    reals: Seq<RealReadingView>,
    i: int,
)
    requires
        sorted_by_name(args),
        0 <= i < args.len(),
        walk(reset_all(args), None, tokens, reals, 0).failure is None,
    ensures
        parse_outcome(args, tokens, reals).args[i].found <==> flag_given(tokens, args[i].name, 0),
{
    let start = reset_all(args);
    lemma_names_kept(args, start);
    lemma_walk_meets_flags(start, None, tokens, reals, 0, i);
    let walked = walk(start, None, tokens, reals, 0);
    lemma_walk_frame(start, None, tokens, reals, 0);
    lemma_validate_frame(walked.args, 0);
}

/// Whether none of the tokens from the place `from` on, the last token
/// apart, is the flag of that name. The flag as the last token has no token
/// after it to take as a value.
pub open spec fn no_flag_before_last(tokens: Seq<Seq<char>>, name: Seq<char>, from: int) -> bool {
    forall|k: int| from <= k < tokens.len() - 1 ==> !#[trigger] is_flag_of(tokens, k, name)
}

/// A walk leaves the value of an argument as it was if the argument is not
/// pending and none of the tokens walked, the last apart, is its flag.
pub proof fn lemma_walk_keeps_value(
    args: Seq<ArgView>,
    pending: Option<int>,
    tokens: Seq<Seq<char>>,
    reals: Seq<RealReadingView>,
    from: int,
    i: int,
)
    requires
        sorted_by_name(args),
        pending_in_range(args, pending),
        0 <= i < args.len(),
        0 <= from,
        pending != Some(i),
        no_flag_before_last(tokens, args[i].name, from),
    ensures
        walk(args, pending, tokens, reals, from).args[i].value == args[i].value,
    decreases tokens.len() - from,
{
    let name = args[i].name;
    if from < tokens.len() {
        let token = tokens[from];
        let reading = reading_at(reals, from);
        let taken = take_value(args, pending, token, reading);
        let next = step(args, pending, token, reading);
        lemma_step_frame(args, pending, token, reading);
        if next.failure is None {
            lemma_names_kept(args, taken.args);
            lemma_names_kept(args, next.args);
            lemma_position_is(taken.args, i, flag_name(token));
            if from < tokens.len() - 1 {
                assert(!is_flag_of(tokens, from, name));
                lemma_walk_keeps_value(next.args, next.pending, tokens, reals, from + 1, i);
            }
        }
    }
}

/// A walk that meets no failure gives an argument the value of the token
/// after its flag, if no later token, the last apart, is its flag again.
/// The flag is the token at the place `at`; it is yet to be walked, or it
/// was the last token walked and the argument is pending.
pub proof fn lemma_walk_takes_value(
    args: Seq<ArgView>,
    pending: Option<int>,
    tokens: Seq<Seq<char>>,
    reals: Seq<RealReadingView>,
    from: int,
    i: int,
    kind: Type,
    at: int,
)
    requires
        sorted_by_name(args),
        pending_in_range(args, pending),
        0 <= i < args.len(),
        args[i].kind == Some(kind),
        0 <= from <= at + 1 < tokens.len(),
        from <= at ==> is_flag_of(tokens, at, args[i].name),
        from == at + 1 ==> pending == Some(i),
        no_flag_before_last(tokens, args[i].name, at + 1),
        walk(args, pending, tokens, reals, from).failure is None,
    ensures
        conversion(kind, tokens[at + 1], reading_at(reals, at + 1)) is Ok,
        walk(args, pending, tokens, reals, from).args[i].value == Some(
            conversion(kind, tokens[at + 1], reading_at(reals, at + 1))->Ok_0,
        ),
    decreases tokens.len() - from,
{
    let name = args[i].name;
    let token = tokens[from];
    let reading = reading_at(reals, from);
    let taken = take_value(args, pending, token, reading);
    let next = step(args, pending, token, reading);
    lemma_step_frame(args, pending, token, reading);
    lemma_names_kept(args, taken.args);
    lemma_names_kept(args, next.args);
    lemma_position_is(taken.args, i, flag_name(token));
    if from == at + 1 {
        if from < tokens.len() - 1 {
            assert(!is_flag_of(tokens, from, name));
            lemma_walk_keeps_value(next.args, next.pending, tokens, reals, from + 1, i);
        }
    } else {
        lemma_walk_takes_value(next.args, next.pending, tokens, reals, from + 1, i, kind, at);
    }
}

/// The lookahead of the parser: after a parse in which no token asked for
/// help and every value was converted, an argument that takes a value holds
/// the value of the token that follows its flag. Where its flag is given
/// more than once, the last flag that has a token after it counts.
pub proof fn law_value_is_token_after_flag(
    args: Seq<ArgView>,
    tokens: Seq<Seq<char>>,
    reals: Seq<RealReadingView>,
    i: int,
    kind: Type,
    at: int,
)
    requires
        sorted_by_name(args),
        0 <= i < args.len(),
        args[i].kind == Some(kind),
        0 <= at,
        at + 1 < tokens.len(),
        is_flag_of(tokens, at, args[i].name),
        no_flag_before_last(tokens, args[i].name, at + 1),
        walk(reset_all(args), None, tokens, reals, 0).failure is None,
    ensures
        conversion(kind, tokens[at + 1], reading_at(reals, at + 1)) is Ok,
        parse_outcome(args, tokens, reals).args[i].value == Some(
            conversion(kind, tokens[at + 1], reading_at(reals, at + 1))->Ok_0,
        ),
{
    let start = reset_all(args);
    lemma_names_kept(args, start);
    lemma_walk_takes_value(start, None, tokens, reals, 0, i, kind, at);
    lemma_walk_meets_flags(start, None, tokens, reals, 0, i);
    let walked = walk(start, None, tokens, reals, 0);
    lemma_walk_frame(start, None, tokens, reals, 0);
    lemma_validate_frame(walked.args, 0);
}

/// Whether every reading of a list is well formed.
pub open spec fn readings_wf(reals: Seq<RealReadingView>) -> bool {
    forall|k: int| 0 <= k < reals.len() ==> (#[trigger] reals[k]).wf()
}

/// The walk keeps the invariant of the arguments.
proof fn lemma_walk_keeps_invariant(
    args: Seq<ArgView>,
    pending: Option<int>,
    tokens: Seq<Seq<char>>,
    reals: Seq<RealReadingView>,
    from: int,
)
    requires
        all_wf(args),
        readings_wf(reals),
        pending_in_range(args, pending),
    ensures
        all_wf(walk(args, pending, tokens, reals, from).args),
    decreases tokens.len() - from,
{
    if 0 <= from < tokens.len() {
        let token = tokens[from];
        let reading = reading_at(reals, from);
        let taken = take_value(args, pending, token, reading);
        let next = step(args, pending, token, reading);
        lemma_step_frame(args, pending, token, reading);
        if pending is Some && args[pending->0].kind is Some {
            lemma_conversion_conforms(args[pending->0].kind->0, token, reading);
        }
        lemma_position_in_range(taken.args, flag_name(token));
        if next.failure is None {
            lemma_walk_keeps_invariant(next.args, next.pending, tokens, reals, from + 1);
        }
    }
}

/// A parse keeps the invariant of the arguments: whatever the tokens, every
/// value that an argument holds afterwards is of the kind the argument was
/// declared with.
pub proof fn law_parse_keeps_invariant(
    args: Seq<ArgView>,
    tokens: Seq<Seq<char>>,
    reals: Seq<RealReadingView>,
)
    requires
        all_wf(args),
        readings_wf(reals),
    ensures
        all_wf(parse_outcome(args, tokens, reals).args),
{
    let start = reset_all(args);
    lemma_walk_keeps_invariant(start, None, tokens, reals, 0);
    let walked = walk(start, None, tokens, reals, 0);
    lemma_validate_frame(walked.args, 0);
}

} // verus!
