//! The mathematical model of a registry and of a parse: what a token stream
//! does to the arguments, stated over sequences.
use crate::arg::{ArgView, Type, ValueView};
use crate::convert::{conversion, RealReadingView};
use crate::error::{GetError, ParseFailure};
use crate::text::{
    flag_name, is_flag, is_help, lemma_lex_lt_irreflexive, lemma_lex_lt_total,
    lemma_lex_lt_transitive, lex_lt,
};
use vstd::prelude::*;

verus! {

/// The mathematical model of a registry: the name and the description of
/// the application, and the arguments in the order of their names.
pub struct RegistryView {
    pub app_name: Seq<char>,
    pub description: Seq<char>,
    pub args: Seq<ArgView>,
}

/// Whether the arguments stand in the strict order of their names. No two
/// of them then have the same name.
pub open spec fn sorted_by_name(args: Seq<ArgView>) -> bool {
    forall|i: int, j: int| 0 <= i < j < args.len() ==> lex_lt(args[i].name, args[j].name)
}

/// Whether every argument meets its invariant.
pub open spec fn all_wf(args: Seq<ArgView>) -> bool {
    forall|i: int| 0 <= i < args.len() ==> (#[trigger] args[i]).wf()
}

impl RegistryView {
    /// The invariant of a registry.
    pub open spec fn wf(self) -> bool {
        sorted_by_name(self.args) && all_wf(self.args)
    }
}

/// Whether an argument of that name is among the arguments.
pub open spec fn is_registered(args: Seq<ArgView>, name: Seq<char>) -> bool {
    exists|i: int| 0 <= i < args.len() && (#[trigger] args[i]).name == name
}

/// The place of the argument of that name among the arguments.
pub open spec fn position(args: Seq<ArgView>, name: Seq<char>) -> Option<int> {
    if is_registered(args, name) {
        Some(choose|i: int| 0 <= i < args.len() && (#[trigger] args[i]).name == name)
    } else {
        None
    }
}

/// Among arguments in the order of their names, an argument is found at its
/// own place.
pub proof fn lemma_position_unique(args: Seq<ArgView>, i: int)
    requires
        sorted_by_name(args),
        0 <= i < args.len(),
    ensures
        position(args, args[i].name) == Some(i),
{
    lemma_lex_lt_irreflexive(args[i].name);
}

/// A place that `position` gives is a place among the arguments, and the
/// argument there has the name asked for.
pub proof fn lemma_position_in_range(args: Seq<ArgView>, name: Seq<char>)
    ensures
        match position(args, name) {
            Some(i) => 0 <= i < args.len() && args[i].name == name,
            None => forall|i: int| 0 <= i < args.len() ==> (#[trigger] args[i]).name != name,
        },
{
}

/// The first place at or after `from` whose argument does not come before
/// `name`; the number of arguments if there is none.
pub open spec fn rank_from(args: Seq<ArgView>, name: Seq<char>, from: int) -> int
    decreases args.len() - from,
{
    if from < 0 || from >= args.len() || !lex_lt(args[from].name, name) {
        from
    } else {
        rank_from(args, name, from + 1)
    }
}

/// The arguments after one more was registered: the new argument stands at
/// its place in the order of names, and takes the place of an argument of
/// the same name.
pub open spec fn register(args: Seq<ArgView>, arg: ArgView) -> Seq<ArgView> {
    let k = rank_from(args, arg.name, 0);
    if k < args.len() && args[k].name == arg.name {
        args.update(k, arg)
    } else {
        args.insert(k, arg)
    }
}

/// The arguments after the first `n` of a list were registered one by one.
pub open spec fn registered(list: Seq<ArgView>, n: int) -> Seq<ArgView>
    decreases n,
{
    if n <= 0 {
        Seq::empty()
    } else {
        register(registered(list, n - 1), list[n - 1])
    }
}

/// The place that `rank_from` gives lies at or after `from`; every argument
/// between `from` and it comes before `name`, and the argument at it, if
/// there is one, does not.
pub proof fn lemma_rank_from(args: Seq<ArgView>, name: Seq<char>, from: int)
    requires
        0 <= from <= args.len(),
    ensures
        from <= rank_from(args, name, from) <= args.len(),
        forall|j: int|
            from <= j < rank_from(args, name, from) ==> lex_lt((#[trigger] args[j]).name, name),
        rank_from(args, name, from) < args.len() ==> !lex_lt(
            args[rank_from(args, name, from)].name,
            name,
        ),
    decreases args.len() - from,
{
    if from < args.len() && lex_lt(args[from].name, name) {
        lemma_rank_from(args, name, from + 1);
    }
}

/// Among arguments in the order of their names, the place up to which every
/// argument comes before `name`, and from which none does, is the place
/// that `rank_from` gives.
pub proof fn lemma_rank_is(args: Seq<ArgView>, name: Seq<char>, from: int, k: int)
    requires
        0 <= from <= k <= args.len(),
        forall|j: int| from <= j < k ==> lex_lt((#[trigger] args[j]).name, name),
        k < args.len() ==> !lex_lt(args[k].name, name),
    ensures
        rank_from(args, name, from) == k,
    decreases k - from,
{
    if from < k {
        lemma_rank_is(args, name, from + 1, k);
    }
}

/// Among arguments in the order of their names, a name is registered
/// exactly if the argument at the place that `rank_from` gives has it.
pub proof fn lemma_position_at_rank(args: Seq<ArgView>, name: Seq<char>)
    requires
        sorted_by_name(args),
    ensures
        position(args, name) == if rank_from(args, name, 0) < args.len() && args[rank_from(
            args,
            name,
            0,
        )].name == name {
            Some(rank_from(args, name, 0))
        } else {
            None
        },
{
    let k = rank_from(args, name, 0);
    lemma_rank_from(args, name, 0);
    lemma_lex_lt_irreflexive(name);
    if k < args.len() && args[k].name == name {
        lemma_position_unique(args, k);
    } else {
        assert forall|j: int| 0 <= j < args.len() implies (#[trigger] args[j]).name != name by {
            if j > k && args[j].name == name {
                assert(lex_lt(args[k].name, args[j].name));
            }
        }
    }
}

/// Registering an argument keeps the order of names. The new argument
/// stands at its place; every other argument of another name stays, and
/// nothing else comes in.
pub proof fn lemma_register(args: Seq<ArgView>, arg: ArgView)
    requires
        sorted_by_name(args),
    ensures
        sorted_by_name(register(args, arg)),
        0 <= rank_from(args, arg.name, 0) < register(args, arg).len(),
        register(args, arg)[rank_from(args, arg.name, 0)] == arg,
        forall|p: int|
            0 <= p < register(args, arg).len() && p != rank_from(args, arg.name, 0)
                ==> args.contains(#[trigger] register(args, arg)[p]),
        forall|q: int|
            0 <= q < args.len() && args[q].name != arg.name ==> register(args, arg).contains(
                #[trigger] args[q],
            ),
{
    let name = arg.name;
    let k = rank_from(args, name, 0);
    let after = register(args, arg);
    lemma_rank_from(args, name, 0);
    assert forall|j: int| k <= j < args.len() && args[j].name != name implies lex_lt(
        name,
        #[trigger] args[j].name,
    ) by {
        lemma_lex_lt_total(args[k].name, name);
        if j > k && args[k].name != name {
            lemma_lex_lt_transitive(name, args[k].name, args[j].name);
        }
    }
    if k < args.len() && args[k].name == name {
        assert forall|q: int| 0 <= q < args.len() && args[q].name != name implies after.contains(
            #[trigger] args[q],
        ) by {
            assert(after[q] == args[q]);
        }
    } else {
        assert forall|q: int| 0 <= q < args.len() && args[q].name != name implies after.contains(
            #[trigger] args[q],
        ) by {
            if q < k {
                assert(after[q] == args[q]);
            } else {
                assert(after[q + 1] == args[q]);
            }
        }
    }
}

/// The arguments registered from a list stand in the order of their names.
pub proof fn lemma_registered_sorted(list: Seq<ArgView>, n: int)
    ensures
        sorted_by_name(registered(list, n)),
    decreases n,
{
    if n > 0 {
        lemma_registered_sorted(list, n - 1);
        lemma_register(registered(list, n - 1), list[n - 1]);
    }
}

/// The arguments as a parse finds them at its start.
pub open spec fn reset_all(args: Seq<ArgView>) -> Seq<ArgView> {
    Seq::new(args.len(), |i: int| args[i].reset())
}

/// The reading that came with the token at a place, if one came.
pub open spec fn reading_at(reals: Seq<RealReadingView>, at: int) -> Option<RealReadingView> {
    if 0 <= at < reals.len() {
        Some(reals[at])
    } else {
        None
    }
}

/// Where the walk over the tokens stands: the arguments, the argument whose
/// value the next token is, and the failure that ended the walk, if one did.
pub struct Progress {
    pub args: Seq<ArgView>,
    pub pending: Option<int>,
    pub failure: Option<ParseFailure>,
}

/// The first half of a step: the token as the value of the pending
/// argument. The value is converted to the kind of the argument and given
/// to it; a token that cannot be converted ends the walk.
pub open spec fn take_value(
    args: Seq<ArgView>,
    pending: Option<int>,
    token: Seq<char>,
    reals: Option<RealReadingView>,
) -> Progress {
    match pending {
        Some(i) => match args[i].kind {
            Some(kind) => match conversion(kind, token, reals) {
                Ok(value) => Progress {
                    args: args.update(i, args[i].given(value)),
                    pending: None,
                    failure: None,
                },
                Err(reason) => Progress {
                    args,
                    pending: None,
                    failure: Some(
                        ParseFailure::ConversionError {
                            token,
                            name: args[i].name,
                            kind,
                            reason,
                        },
                    ),
                },
            },
            None => Progress { args, pending: None, failure: None },
        },
        None => Progress { args, pending: None, failure: None },
    }
}

/// The second half of a step: the token as a flag. A request for the usage
/// text ends the walk. The flag of a registered argument marks it as met,
/// and makes it pending if it takes a value. Any other token changes
/// nothing.
pub open spec fn take_flag(args: Seq<ArgView>, token: Seq<char>) -> Progress {
    if is_help(token) {
        Progress { args, pending: None, failure: Some(ParseFailure::HelpRequested) }
    } else if is_flag(token) {
        match position(args, flag_name(token)) {
            Some(i) => Progress {
                args: args.update(i, args[i].met()),
                pending: if args[i].kind is Some {
                    Some(i)
                } else {
                    None
                },
                failure: None,
            },
            None => Progress { args, pending: None, failure: None },
        }
    } else {
        Progress { args, pending: None, failure: None }
    }
}

/// One step of the walk. The token is first taken as the value of the
/// pending argument, if there is one, and then, whether or not it was a
/// value, as a flag.
pub open spec fn step(
    args: Seq<ArgView>,
    pending: Option<int>,
    token: Seq<char>,
    reals: Option<RealReadingView>,
) -> Progress {
    let taken = take_value(args, pending, token, reals);
    if taken.failure is Some {
        taken
    } else {
        take_flag(taken.args, token)
    }
}

/// The walk over the tokens from the place `from` on. It ends with the last
/// token, or with the first failure.
pub open spec fn walk(
    args: Seq<ArgView>,
    pending: Option<int>,
    tokens: Seq<Seq<char>>,
    reals: Seq<RealReadingView>,
    from: int,
) -> Progress
    decreases tokens.len() - from,
{
    if from < 0 || from >= tokens.len() {
        Progress { args, pending, failure: None }
    } else {
        let next = step(args, pending, tokens[from], reading_at(reals, from));
        if next.failure is Some {
            next
        } else {
            walk(next.args, next.pending, tokens, reals, from + 1)
        }
    }
}

/// What a validation leaves: the arguments, and the failure that ended it,
/// if one did.
pub struct Outcome {
    pub args: Seq<ArgView>,
    pub failure: Option<ParseFailure>,
}

/// The validation of the arguments from the place `from` on, in the order
/// of their names. Each argument is settled in turn; the first that cannot
/// be ends the validation.
pub open spec fn validate(args: Seq<ArgView>, from: int) -> Outcome
    decreases args.len() - from,
{
    if from < 0 || from >= args.len() {
        Outcome { args, failure: None }
    } else {
        match args[from].settle() {
            Ok(settled) => validate(args.update(from, settled), from + 1),
            Err(failure) => Outcome { args, failure: Some(failure) },
        }
    }
}

/// What a parse makes of the arguments. Whatever an earlier parse left is
/// forgotten; the tokens are walked; and if the walk met no failure, the
/// arguments are validated.
pub open spec fn parse_outcome(
    args: Seq<ArgView>,
    tokens: Seq<Seq<char>>,
    reals: Seq<RealReadingView>,
) -> Outcome {
    let walked = walk(reset_all(args), None, tokens, reals, 0);
    if walked.failure is Some {
        Outcome { args: walked.args, failure: walked.failure }
    } else {
        validate(walked.args, 0)
    }
}

/// Whether the last parse met the flag of the argument of that name.
pub open spec fn was_met(args: Seq<ArgView>, name: Seq<char>) -> bool {
    match position(args, name) {
        Some(i) => args[i].found,
        None => false,
    }
}

/// The value of the argument of that name, read at the kind `wanted`: the
/// value that the last parse left, or else the default.
pub open spec fn resolve(args: Seq<ArgView>, name: Seq<char>, wanted: Type) -> Result<
    ValueView,
    GetError,
> {
    match position(args, name) {
        None => Err(GetError::UnknownArgument),
        Some(i) => match args[i].kind {
            None => Err(GetError::NotValueTaking),
            Some(kind) => if kind != wanted {
                Err(GetError::TypeMismatch)
            } else {
                let held = if args[i].value is Some {
                    args[i].value
                } else {
                    args[i].default
                };
                match held {
                    None => Err(GetError::NoValueNoDefault),
                    Some(value) => if value.kind == wanted {
                        Ok(value)
                    } else {
                        Err(GetError::InternalCastError)
                    },
                }
            },
        },
    }
}

/// The part of the usage signature that the first `n` arguments make.
pub open spec fn usage_signature(args: Seq<ArgView>, n: int) -> Seq<char>
    decreases n,
{
    if n <= 0 {
        Seq::empty()
    } else {
        usage_signature(args, n - 1) + " --"@ + args[n - 1].name + " <value>"@
    }
}

/// The line of the usage text for an argument of that name and description,
/// whose default is displayed as `default_text`.
pub open spec fn usage_line_text(
    name: Seq<char>,
    description: Seq<char>,
    default_text: Seq<char>,
) -> Seq<char> {
    "--"@ + name + " <value>       "@ + description + " (default: "@ + default_text + ")\n"@
}

/// The line of the usage text that describes one argument.
pub open spec fn usage_line(arg: ArgView) -> Seq<char> {
    usage_line_text(arg.name, arg.description, arg.default_text())
}

/// The lines of the usage text that describe the first `n` arguments.
pub open spec fn usage_lines(args: Seq<ArgView>, n: int) -> Seq<char>
    decreases n,
{
    if n <= 0 {
        Seq::empty()
    } else {
        usage_lines(args, n - 1) + usage_line(args[n - 1])
    }
}

/// The usage text: the description, the signature with every argument, and
/// one line for the request for help and for each argument.
pub open spec fn usage_text(registry: RegistryView) -> Seq<char> {
    registry.description + "\nUsage:\n"@ + registry.app_name + usage_signature(
        registry.args,
        registry.args.len() as int,
    ) + "\n\nArguments:\n"@ + "--help                 Print this help\n"@ + usage_lines(
        registry.args,
        registry.args.len() as int,
    )
}

/// A failure as it is explained to the user: its message, followed by the
/// usage text where an argument is missing or lacks its value.
pub open spec fn explanation(registry: RegistryView, failure: ParseFailure) -> Seq<char> {
    if failure.shows_usage() {
        failure.message() + "\n"@ + usage_text(registry)
    } else {
        failure.message()
    }
}

/// The registry as it is displayed: the first `n` arguments, one to a line.
pub open spec fn listing(args: Seq<ArgView>, n: int) -> Seq<char>
    decreases n,
{
    if n <= 0 {
        Seq::empty()
    } else {
        listing(args, n - 1) + args[n - 1].text() + "\n"@
    }
}

} // verus!
