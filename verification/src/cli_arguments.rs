//! The registry of arguments: it walks a token stream, validates what the
//! walk left, and hands the values out at the type asked for.
use crate::arg::{Arg, ArgView, Type};
use crate::convert::{convert, reading_view, RealReading, RealReadingView};
use crate::error::{GetError, ParseError, ParseFailure};
use crate::model::{
    Outcome, Progress, RegistryView, all_wf, explanation, lemma_position_at_rank, lemma_rank_is,
    lemma_register, listing, parse_outcome, position, rank_from, register, registered, reset_all,
    resolve, take_value, usage_line_text, usage_lines, usage_signature, usage_text, validate, walk,
    was_met,
};
use crate::text::{
    compare_names, lemma_lex_lt_transitive, lex_lt, read_flag, Flag, NameOrder,
};
use crate::typed::Readable;
use vstd::prelude::*;
use vstd::string::*;

verus! {

/// The models of a list of arguments.
pub open spec fn arg_views(args: Seq<Arg>) -> Seq<ArgView> {
    Seq::new(args.len(), |i: int| args[i]@)
}

/// The texts of a list of tokens.
pub open spec fn token_views(tokens: Seq<String>) -> Seq<Seq<char>> {
    Seq::new(tokens.len(), |i: int| tokens[i]@)
}

/// The models of a list of readings.
pub open spec fn reading_views(reals: Seq<RealReading>) -> Seq<RealReadingView> {
    Seq::new(reals.len(), |i: int| reals[i]@)
}

/// The failure that a result reports, if it reports one.
pub open spec fn failure_of(result: Result<(), ParseError>) -> Option<ParseFailure> {
    match result {
        Ok(()) => None,
        Err(e) => Some(e@),
    }
}

/// An index as a place in a sequence.
pub open spec fn place_of(index: Option<usize>) -> Option<int> {
    match index {
        Some(i) => Some(i as int),
        None => None,
    }
}

/// Writes the line of the usage text for an argument of that name and
/// description, whose default is displayed as `default_text`.
pub fn usage_line_of(name: &str, description: &str, default_text: &str) -> (line: String)
    ensures
        line@ == usage_line_text(name@, description@, default_text@),
{
    let mut line = String::from_str("--");
    line.append(name);
    line.append(" <value>       ");
    line.append(description);
    line.append(" (default: ");
    line.append(default_text);
    line.append(")\n");
    line
}

/// Argument Engine looking for all `Arg`.
#[derive(Debug)]
pub struct CliArguments {
    app_name: String,
    description: String,
    named_args: Vec<Arg>,
}

impl View for CliArguments {
    type V = RegistryView;

    closed spec fn view(&self) -> RegistryView {
        RegistryView {
            app_name: self.app_name@,
            description: self.description@,
            args: arg_views(self.named_args@),
        }
    }
}

impl CliArguments {
    /// Construct a new CliArguments.
    ///
    /// # Arguments
    /// * `named_args` - The arguments. They are registered one by one, each
    ///   at its place in the order of names; of two with the same name the
    ///   later one stays.
    pub fn new(named_args: Vec<Arg>) -> (cli: CliArguments)
        requires
            all_wf(arg_views(named_args@)),
        ensures
            cli@.wf(),
            cli@.app_name == Seq::<char>::empty(),
            cli@.description == Seq::<char>::empty(),
            cli@.args == registered(arg_views(named_args@), named_args@.len() as int),
    {
        let ghost list = arg_views(named_args@);
        let mut cli = CliArguments {
            app_name: String::new(),
            description: String::new(),
            named_args: Vec::new(),
        };
        for arg in it: named_args
            invariant
                it.seq() == named_args@,
                list == arg_views(named_args@),
                all_wf(list),
                cli@.wf(),
                cli@.app_name == Seq::<char>::empty(),
                cli@.description == Seq::<char>::empty(),
                cli@.args == registered(list, it.index() as int),
        {
            assert(list[it.index() as int].wf());
            cli.add(arg);
        }
        cli
    }

    /// The place at which an argument of that name stands, or would stand,
    /// in the order of names. The place is found by halving.
    fn rank(&self, name: &str) -> (k: usize)
        requires
            self@.wf(),
        ensures
            k == rank_from(self@.args, name@, 0),
            k <= self@.args.len(),
    {
        let mut low: usize = 0;
        let mut high: usize = self.named_args.len();
        while low < high
            invariant
                self@.wf(),
                low <= high <= self@.args.len(),
                forall|j: int| 0 <= j < low ==> lex_lt((#[trigger] self@.args[j]).name, name@),
                forall|j: int|
                    high <= j < self@.args.len() ==> !lex_lt((#[trigger] self@.args[j]).name, name@),
            decreases high - low,
        {
            let middle = low + (high - low) / 2;
            let ghost pivot = self@.args[middle as int].name;
            match compare_names(self.named_args[middle].name(), name) {
                NameOrder::Before => {
                    assert forall|j: int| 0 <= j < middle + 1 implies lex_lt(
                        (#[trigger] self@.args[j]).name,
                        name@,
                    ) by {
                        if j < middle {
                            lemma_lex_lt_transitive(self@.args[j].name, pivot, name@);
                        }
                    }
                    low = middle + 1;
                },
                _ => {
                    assert forall|j: int| middle <= j < self@.args.len() implies !lex_lt(
                        (#[trigger] self@.args[j]).name,
                        name@,
                    ) by {
                        if j > middle && lex_lt(self@.args[j].name, name@) {
                            lemma_lex_lt_transitive(pivot, self@.args[j].name, name@);
                        }
                    }
                    high = middle;
                },
            }
        }
        proof {
            lemma_rank_is(self@.args, name@, 0, low as int);
        }
        low
    }

    /// Registers one more argument, at its place in the order of names. It
    /// takes the place of an argument of the same name.
    pub fn add(&mut self, arg: Arg)
        requires
            old(self)@.wf(),
            arg@.wf(),
        ensures
            final(self)@.wf(),
            final(self)@.app_name == old(self)@.app_name,
            final(self)@.description == old(self)@.description,
            final(self)@.args == register(old(self)@.args, arg@),
    {
        let ghost before = self@.args;
        let ghost given = arg@;
        let k = self.rank(arg.name());
        let same = k < self.named_args.len() && compare_names(
            self.named_args[k].name(),
            arg.name(),
        ) == NameOrder::Same;
        proof {
            lemma_register(before, given);
        }
        if same {
            self.named_args[k] = arg;
            assert(self@.args =~= before.update(k as int, given));
        } else {
            self.named_args.insert(k, arg);
            assert(self@.args =~= before.insert(k as int, given));
        }
    }

    /// Sets the cli name and description.
    ///
    /// # Arguments
    /// * `app_name` - The name of the cli app.
    /// * `description` - The description of the cli app.
    pub fn set_info(&mut self, app_name: &str, description: &str)
        ensures
            final(self)@ == (RegistryView {
                app_name: app_name@,
                description: description@,
                ..old(self)@
            }),
    {
        self.app_name = app_name.to_owned();
        self.description = description.to_owned();
    }

    /// The number of registered arguments.
    pub fn len(&self) -> (n: usize)
        ensures
            n == self@.args.len(),
    {
        self.named_args.len()
    }

    /// The argument at a place in the order of names.
    pub fn arg_at(&self, index: usize) -> (arg: &Arg)
        requires
            index < self@.args.len(),
        ensures
            arg@ == self@.args[index as int],
    {
        &self.named_args[index]
    }

    /// The place of the argument of that name, if one is registered.
    pub fn find(&self, arg_name: &str) -> (r: Option<usize>)
        requires
            self@.wf(),
        ensures
            place_of(r) == position(self@.args, arg_name@),
    {
        let k = self.rank(arg_name);
        proof {
            lemma_position_at_rank(self@.args, arg_name@);
        }
        if k < self.named_args.len() && compare_names(self.named_args[k].name(), arg_name)
            == NameOrder::Same {
            Some(k)
        } else {
            None
        }
    }

    /// Check if an `Arg` is present on the command line.
    ///
    /// # Arguments
    /// * `arg_name` - The name of the `Arg` to check.
    ///
    /// # Returns
    /// Return `true` if the `Arg` is registered and the last parse met its
    /// flag, `false` otherwise.
    pub fn is_present(&self, arg_name: &str) -> (r: bool)
        requires
            self@.wf(),
        ensures
            r == was_met(self@.args, arg_name@),
    {
        match self.find(arg_name) {
            Some(i) => {
                self.named_args[i].was_found()
            },
            None => false,
        }
    }

    /// Whether the kind asked for is the kind an argument was declared
    /// with.
    pub fn check_type(&self, wanted: Type, type_read: Type) -> (r: bool)
        ensures
            r == (wanted == type_read),
    {
        wanted == type_read
    }

    /// Get the value of the `arg_name` argument.
    ///
    /// # Arguments
    /// * `arg_name` - The name of the `Arg` to get the value of.
    ///
    /// # Returns
    /// A copy of the value that the last parse left, or else of the
    /// default, at the type `T`, which must stand for the kind the argument
    /// was declared with.
    pub fn get_value<T: Readable>(&self, arg_name: &str) -> (r: Result<T, GetError>)
        requires
            self@.wf(),
        ensures
            match resolve(self@.args, arg_name@, T::kind_of()) {
                Ok(value) => r is Ok && r.unwrap().model() == value,
                Err(e) => r == Err::<T, GetError>(e),
            },
    {
        match self.find(arg_name) {
            None => Err(GetError::UnknownArgument),
            Some(i) => {
                let arg = &self.named_args[i];
                match arg.kind() {
                    None => Err(GetError::NotValueTaking),
                    Some(type_read) => {
                        if !self.check_type(T::read_kind(), type_read) {
                            return Err(GetError::TypeMismatch);
                        }
                        let held = match arg.value() {
                            Some(v) => Some(v),
                            None => arg.default_value(),
                        };
                        match held {
                            None => Err(GetError::NoValueNoDefault),
                            Some(value) => match T::from_value(value) {
                                Some(v) => Ok(v),
                                None => Err(GetError::InternalCastError),
                            },
                        }
                    },
                }
            },
        }
    }

    /// Forgets what the last parse left in the arguments.
    #[verifier::loop_isolation(false)]
    fn reset_args(&mut self)
        ensures
            final(self)@.app_name == old(self)@.app_name,
            final(self)@.description == old(self)@.description,
            final(self)@.args == reset_all(old(self)@.args),
    {
        let ghost before = self@.args;
        let mut i: usize = 0;
        while i < self.named_args.len()
            invariant
                self@.app_name == old(self)@.app_name,
                self@.description == old(self)@.description,
                self@.args.len() == before.len(),
                i <= before.len(),
                forall|j: int| 0 <= j < i ==> (#[trigger] self@.args[j]) == before[j].reset(),
                forall|j: int| i <= j < before.len() ==> (#[trigger] self@.args[j]) == before[j],
            decreases self.named_args.len() - i,
        {
            let ghost pre = self@.args;
            self.named_args[i].reset();
            assert forall|j: int| 0 <= j < before.len() && j != i implies (
            #[trigger] self@.args[j]) == pre[j] by {}
            assert(self@.args[i as int] == pre[i as int].reset());
            i += 1;
        }
    }

    /// Takes a token as the value of the argument at a place: converts it
    /// to the kind of the argument and gives it to the argument.
    fn read_value(&mut self, token: &str, index: usize, reals: Option<&RealReading>) -> (r: Result<
        (),
        ParseError,
    >)
        requires
            index < old(self)@.args.len(),
        ensures
            final(self)@.app_name == old(self)@.app_name,
            final(self)@.description == old(self)@.description,
            take_value(old(self)@.args, Some(index as int), token@, reading_view(reals)) == (
            Progress { args: final(self)@.args, pending: None, failure: failure_of(r) }),
            old(self)@.wf() ==> final(self)@.wf(),
    {
        let ghost before = self@.args;
        match self.named_args[index].kind() {
            Some(kind) => match convert(kind, token, reals) {
                Ok(value) => {
                    self.named_args[index].store(value);
                    proof {
                        assert(self@.args =~= before.update(
                            index as int,
                            before[index as int].given(value@),
                        ));
                    }
                    Ok(())
                },
                Err(reason) => Err(
                    ParseError::ConversionError {
                        token: token.to_owned(),
                        name: self.named_args[index].get_name(),
                        kind,
                        reason,
                    },
                ),
            },
            None => Ok(()),
        }
    }

    /// Validates the arguments after the tokens were walked, in the order
    /// of their names, and stops at the first that cannot be settled.
    #[verifier::loop_isolation(false)]
    fn check_args(&mut self) -> (r: Result<(), ParseError>)
        ensures
            final(self)@.app_name == old(self)@.app_name,
            final(self)@.description == old(self)@.description,
            validate(old(self)@.args, 0) == (Outcome {
                args: final(self)@.args,
                failure: failure_of(r),
            }),
            old(self)@.wf() ==> final(self)@.wf(),
    {
        let ghost before = self@.args;
        let mut i: usize = 0;
        while i < self.named_args.len()
            invariant
                self@.app_name == old(self)@.app_name,
                self@.description == old(self)@.description,
                i <= self@.args.len(),
                validate(before, 0) == validate(self@.args, i as int),
                old(self)@.wf() ==> self@.wf(),
            decreases self.named_args.len() - i,
        {
            let ghost pre = self@.args;
            let arg = &self.named_args[i];
            let accept = if !arg.was_found() {
                if arg.has_default_value() {
                    true
                } else if arg.is_required() {
                    return Err(ParseError::MissingRequired { name: arg.get_name() });
                } else {
                    false
                }
            } else if arg.takes_value() && arg.value().is_none() {
                if arg.has_default_value() {
                    true
                } else {
                    return Err(ParseError::MissingValue { name: arg.get_name() });
                }
            } else {
                false
            };
            if accept {
                match self.named_args[i].accept_default_value() {
                    Ok(()) => {},
                    Err(e) => {
                        proof {
                            assert(self@.args =~= pre);
                        }
                        return Err(e);
                    },
                }
            }
            proof {
                assert(self@.args =~= pre.update(i as int, pre[i as int].settle()->Ok_0));
            }
            i += 1;
        }
        Ok(())
    }

    /// Walks the tokens and validates what the walk left.
    #[verifier::loop_isolation(false)]
    fn internal_parse(&mut self, tokens: &Vec<String>, reals: &Vec<RealReading>) -> (r: Result<
        (),
        ParseError,
    >)
        requires
            old(self)@.wf(),
        ensures
            final(self)@.wf(),
            final(self)@.app_name == old(self)@.app_name,
            final(self)@.description == old(self)@.description,
            parse_outcome(old(self)@.args, token_views(tokens@), reading_views(reals@)) == (
            Outcome { args: final(self)@.args, failure: failure_of(r) }),
    {
        let ghost texts = token_views(tokens@);
        let ghost readings = reading_views(reals@);
        self.reset_args();
        let ghost start = self@.args;
        let mut pending: Option<usize> = None;
        let mut i: usize = 0;
        while i < tokens.len()
            invariant
                texts == token_views(tokens@),
                readings == reading_views(reals@),
                self@.app_name == old(self)@.app_name,
                self@.description == old(self)@.description,
                i <= tokens@.len(),
                self@.args.len() == start.len(),
                self@.wf(),
                match pending {
                    Some(k) => k < start.len(),
                    None => true,
                },
                walk(start, None, texts, readings, 0) == walk(
                    self@.args,
                    place_of(pending),
                    texts,
                    readings,
                    i as int,
                ),
            decreases tokens.len() - i,
        {
            let reading = if i < reals.len() {
                Some(&reals[i])
            } else {
                None
            };
            let token = tokens[i].as_str();
            if let Some(k) = pending {
                pending = None;
                match self.read_value(token, k, reading) {
                    Ok(()) => {},
                    Err(e) => {
                        return Err(e);
                    },
                }
            }
            let ghost taken = self@.args;
            match read_flag(token) {
                Flag::Help => {
                    return Err(ParseError::HelpRequested);
                },
                Flag::Named(name) => {
                    match self.find(name.as_str()) {
                        Some(k) => {
                            self.named_args[k].mark_found();
                            if self.named_args[k].takes_value() {
                                pending = Some(k);
                            }
                            proof {
                                assert(self@.args =~= taken.update(k as int, taken[k as int].met()));
                            }
                        },
                        None => {},
                    }
                },
                Flag::Plain => {},
            }
            i += 1;
        }
        self.check_args()
    }

    /// Parse the command line arguments.
    ///
    /// # Arguments
    /// * `tokens` - The arguments of the command line, without the name of
    ///   the program.
    /// * `reals` - For each token, at the same place, how it reads as a real
    ///   number. A token without a reading cannot be the value of an
    ///   argument of a real kind.
    ///
    /// # Returns
    /// `Ok` if the tokens were walked and every argument was settled, else
    /// the first failure. Whatever an earlier parse left is forgotten.
    pub fn parse(&mut self, tokens: Vec<String>, reals: Vec<RealReading>) -> (r: Result<
        (),
        ParseError,
    >)
        requires
            old(self)@.wf(),
        ensures
            final(self)@.wf(),
            final(self)@.app_name == old(self)@.app_name,
            final(self)@.description == old(self)@.description,
            parse_outcome(old(self)@.args, token_views(tokens@), reading_views(reals@)) == (
            Outcome { args: final(self)@.args, failure: failure_of(r) }),
    {
        self.internal_parse(&tokens, &reals)
    }

    /// Parse a list of tokens that come without readings as real numbers,
    /// such as a part of the command line.
    pub fn parse_subset(&mut self, args: Vec<String>) -> (r: Result<(), ParseError>)
        requires
            old(self)@.wf(),
        ensures
            final(self)@.wf(),
            final(self)@.app_name == old(self)@.app_name,
            final(self)@.description == old(self)@.description,
            parse_outcome(old(self)@.args, token_views(args@), Seq::empty()) == (Outcome {
                args: final(self)@.args,
                failure: failure_of(r),
            }),
    {
        let reals: Vec<RealReading> = Vec::new();
        assert(reading_views(reals@) =~= Seq::empty());
        self.internal_parse(&args, &reals)
    }

    /// Generate a text to explain usage
    #[verifier::loop_isolation(false)]
    pub fn generate_usage(&self) -> (r: String)
        ensures
            r@ == usage_text(self@),
    {
        let mut params = String::new();
        let mut params_descr = String::from_str("--help                 Print this help\n");
        let ghost head = params_descr@;
        let mut i: usize = 0;
        while i < self.named_args.len()
            invariant
                i <= self@.args.len(),
                params@ == usage_signature(self@.args, i as int),
                params_descr@ == head + usage_lines(self@.args, i as int),
            decreases self.named_args.len() - i,
        {
            let arg = &self.named_args[i];
            params.append(" --");
            params.append(arg.name());
            params.append(" <value>");
            let line = usage_line_of(
                arg.name(),
                arg.description(),
                arg.format_default_value().as_str(),
            );
            params_descr.append(line.as_str());
            i += 1;
        }
        let mut r = self.description.clone();
        r.append("\nUsage:\n");
        r.append(self.app_name.as_str());
        r.append(params.as_str());
        r.append("\n\nArguments:\n");
        r.append(params_descr.as_str());
        r
    }

    /// The message of a failure as it is shown to the user: where an
    /// argument is missing or lacks its value, the usage text follows the
    /// message.
    pub fn explain(&self, error: &ParseError) -> (r: String)
        ensures
            r@ == explanation(self@, error@),
    {
        let mut r = error.message();
        match error {
            ParseError::MissingRequired { .. } | ParseError::MissingValue { .. } => {
                r.append("\n");
                r.append(self.generate_usage().as_str());
            },
            _ => {},
        }
        r
    }

    /// The arguments as they stand, one to a line.
    #[verifier::loop_isolation(false)]
    pub fn to_text(&self) -> (r: String)
        ensures
            r@ == listing(self@.args, self@.args.len() as int),
    {
        let mut r = String::new();
        let mut i: usize = 0;
        while i < self.named_args.len()
            invariant
                i <= self@.args.len(),
                r@ == listing(self@.args, i as int),
            decreases self.named_args.len() - i,
        {
            r.append(self.named_args[i].to_text().as_str());
            r.append("\n");
            i += 1;
        }
        r
    }
}

} // verus!
