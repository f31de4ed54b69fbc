//! The command line: which tokens are options, what each option does, and
//! which tokens are left to be read as indices.

use vstd::prelude::*;
use vstd::string::StrSliceExecFns;
use vstd::string::StringExecFns;
use crate::text::chars_of;
use crate::text::lemma_texts_push;
use crate::text::texts;

verus! {

/// The switches that shape a run.
#[derive(Clone, Copy, Debug, PartialEq, Eq)]
pub struct Flags {
    /// Emit every term from F(0) up to the requested index.
    pub is_progression: bool,
    /// End the run at the first malformed option or index.
    pub is_strict: bool,
    /// Put the index in front of every value.
    pub print_index: bool,
}

/// Why the options end the run before any index is read.
#[derive(Clone, Copy, Debug, PartialEq, Eq)]
pub enum Halt {
    /// The help text was asked for.
    Help,
    /// The version was asked for.
    Version,
    /// An option is not known, and the run is strict.
    InvalidOption,
}

impl Halt {
    /// The status that the process leaves with: zero after help or version,
    /// one after an invalid option.
    pub fn exit_code(self) -> (code: u8)
        ensures
            code == (if self == Halt::InvalidOption { 1u8 } else { 0u8 }),
    {
        match self {
            Halt::Help => 0,
            Halt::Version => 0,
            Halt::InvalidOption => 1,
        }
    }
}

/// The diagnostic for an option that is not known.
pub open spec fn invalid_option(token: Seq<char>) -> Seq<char> {
    "Invalid Option: "@ + token
}

/// What the command line has come to after some of its arguments.
pub struct Parse {
    /// The switches set so far.
    pub flags: Flags,
    /// The arguments that are no options, in order.
    pub indices: Seq<Seq<char>>,
    /// The diagnostics for the options that are not known, in order.
    pub invalid: Seq<Seq<char>>,
    /// Whether the run ends here, and why.
    pub halt: Option<Halt>,
}

impl Parse {
    /// Before the first argument.
    pub open spec fn start(flags: Flags) -> Parse {
        Parse { flags, indices: Seq::empty(), invalid: Seq::empty(), halt: None }
    }

    /// The same with other switches.
    pub open spec fn with_flags(self, flags: Flags) -> Parse {
        Parse { flags, indices: self.indices, invalid: self.invalid, halt: self.halt }
    }

    /// The same, ended for the reason given.
    pub open spec fn halted(self, halt: Halt) -> Parse {
        Parse { flags: self.flags, indices: self.indices, invalid: self.invalid, halt: Some(halt) }
    }

    /// After an option that is not known: a diagnostic, and the end of a
    /// strict run.
    pub open spec fn reject(self, token: Seq<char>) -> Parse {
        Parse {
            flags: self.flags,
            indices: self.indices,
            invalid: self.invalid.push(invalid_option(token)),
            halt: if self.flags.is_strict {
                Some(Halt::InvalidOption)
            } else {
                None
            },
        }
    }

    /// After the option `--progression` or `-p`.
    pub open spec fn progression(self) -> Parse {
        self.with_flags(
            Flags {
                is_progression: true,
                is_strict: self.flags.is_strict,
                print_index: self.flags.print_index,
            },
        )
    }

    /// After the option `--print-index` or `-i`.
    pub open spec fn indexing(self) -> Parse {
        self.with_flags(
            Flags {
                is_progression: self.flags.is_progression,
                is_strict: self.flags.is_strict,
                print_index: true,
            },
        )
    }

    /// After the option `--strict` or `-s`.
    pub open spec fn strict(self) -> Parse {
        self.with_flags(
            Flags {
                is_progression: self.flags.is_progression,
                is_strict: true,
                print_index: self.flags.print_index,
            },
        )
    }

    /// After a long option, `arg` being the whole argument.
    pub open spec fn long(self, arg: Seq<char>) -> Parse {
        if arg == "--progression"@ {
            self.progression()
        } else if arg == "--print-index"@ {
            self.indexing()
        } else if arg == "--strict"@ {
            self.strict()
        } else if arg == "--help"@ {
            self.halted(Halt::Help)
        } else if arg == "--version"@ {
            self.halted(Halt::Version)
        } else {
            self.reject(arg)
        }
    }

    /// After the short option `c`.
    pub open spec fn short(self, c: char) -> Parse {
        if c == 'i' {
            self.indexing()
        } else if c == 'p' {
            self.progression()
        } else if c == 's' {
            self.strict()
        } else if c == 'h' || c == '?' {
            self.halted(Halt::Help)
        } else if c == 'v' {
            self.halted(Halt::Version)
        } else {
            self.reject(seq![c])
        }
    }

    /// After a bundle of short options, taken from the left until one of
    /// them ends the run.
    pub open spec fn shorts(self, bundle: Seq<char>) -> Parse
        decreases bundle.len(),
    {
        if self.halt is Some || bundle.len() == 0 {
            self
        } else {
            self.short(bundle[0]).shorts(bundle.drop_first())
        }
    }

    /// After one argument. An empty argument and a lone `-` count for
    /// nothing; `--` opens a long option and `-` a bundle of short ones;
    /// anything else is kept to be read as an index.
    pub open spec fn argument(self, arg: Seq<char>) -> Parse {
        if arg.len() == 0 {
            self
        } else if arg[0] != '-' {
            Parse {
                flags: self.flags,
                indices: self.indices.push(arg),
                invalid: self.invalid,
                halt: self.halt,
            }
        } else if arg.len() == 1 {
            self
        } else if arg[1] == '-' {
            self.long(arg)
        } else {
            self.shorts(arg.skip(1))
        }
    }

    /// After a list of arguments, taken from the left until one of them
    /// ends the run.
    pub open spec fn arguments(self, args: Seq<Seq<char>>) -> Parse
        decreases args.len(),
    {
        if self.halt is Some || args.len() == 0 {
            self
        } else {
            self.argument(args[0]).arguments(args.drop_first())
        }
    }

    /// Whether the switches and the diagnostics written so far are those of
    /// this state, `base` being the diagnostics that were there before.
    pub open spec fn holds(self, flags: Flags, diagnostics: Seq<String>, base: Seq<Seq<char>>) -> bool {
        &&& self.flags == flags
        &&& texts(diagnostics) == base + self.invalid
    }
}

/// What a whole command line comes to. Its first argument names the
/// program and is passed over.
pub open spec fn parse(args: Seq<Seq<char>>, flags: Flags) -> Parse {
    if args.len() == 0 {
        Parse::start(flags)
    } else {
        Parse::start(flags).arguments(args.skip(1))
    }
}

/// Short options leave the arguments that are no options as they were.
pub proof fn lemma_shorts_keep_indices(before: Parse, bundle: Seq<char>)
    ensures
        before.shorts(bundle).indices == before.indices,
    decreases bundle.len(),
{
    if before.halt is None && bundle.len() > 0 {
        lemma_shorts_keep_indices(before.short(bundle[0]), bundle.drop_first());
    }
}

/// Whether `chars` spells `word`.
fn spells(chars: &Vec<char>, word: &str) -> (same: bool)
    ensures
        same == (chars@ == word@),
{
    let other = chars_of(word);
    if chars.len() != other.len() {
        return false;
    }
    let mut i: usize = 0;
    while i < chars.len()
        invariant
            i <= chars.len(),
            chars.len() == other.len(),
            other@ == word@,
            chars@.take(i as int) == other@.take(i as int),
        decreases chars.len() - i,
    {
        if chars[i] != other[i] {
            return false;
        }
        assert(chars@.take(i + 1) =~= chars@.take(i as int).push(chars@[i as int]));
        assert(other@.take(i + 1) =~= other@.take(i as int).push(other@[i as int]));
        i += 1;
    }
    assert(chars@ =~= chars@.take(i as int));
    assert(other@ =~= other@.take(i as int));
    true
}

/// Writes the diagnostic for the unknown option `token`.
fn reject(
    token: &str,
    flags: &Flags,
    diagnostics: &mut Vec<String>,
    Ghost(before): Ghost<Parse>,
    Ghost(base): Ghost<Seq<Seq<char>>>,
) -> (halt: Option<Halt>)
    requires
        before.holds(*flags, old(diagnostics)@, base),
    ensures
        before.reject(token@).holds(*flags, final(diagnostics)@, base),
        halt == before.reject(token@).halt,
{
    let mut message = String::from_str("Invalid Option: ");
    message.append(token);
    diagnostics.push(message);
    proof {
        lemma_texts_push(old(diagnostics)@, message);
        assert(texts(diagnostics@) =~= base + before.invalid.push(invalid_option(token@)));
    }
    if flags.is_strict {
        Some(Halt::InvalidOption)
    } else {
        None
    }
}

/// Takes the long option `arg`.
fn long_option(
    arg: &str,
    chars: &Vec<char>,
    flags: &mut Flags,
    diagnostics: &mut Vec<String>,
    Ghost(before): Ghost<Parse>,
    Ghost(base): Ghost<Seq<Seq<char>>>,
) -> (halt: Option<Halt>)
    requires
        chars@ == arg@,
        before.halt is None,
        before.holds(*old(flags), old(diagnostics)@, base),
    ensures
        before.long(arg@).holds(*final(flags), final(diagnostics)@, base),
        halt == before.long(arg@).halt,
{
    if spells(chars, "--progression") {
        flags.is_progression = true;
        None
    } else if spells(chars, "--print-index") {
        flags.print_index = true;
        None
    } else if spells(chars, "--strict") {
        flags.is_strict = true;
        None
    } else if spells(chars, "--help") {
        Some(Halt::Help)
    } else if spells(chars, "--version") {
        Some(Halt::Version)
    } else {
        reject(arg, flags, diagnostics, Ghost(before), Ghost(base))
    }
}

/// Takes the bundle of short options that follows the first character of
/// `arg`.
fn short_options(
    arg: &str,
    chars: &Vec<char>,
    flags: &mut Flags,
    diagnostics: &mut Vec<String>,
    Ghost(before): Ghost<Parse>,
    Ghost(base): Ghost<Seq<Seq<char>>>,
) -> (halt: Option<Halt>)
    requires
        chars@ == arg@,
        chars.len() >= 1,
        before.halt is None,
        before.holds(*old(flags), old(diagnostics)@, base),
    ensures
        before.shorts(arg@.skip(1)).holds(*final(flags), final(diagnostics)@, base),
        halt == before.shorts(arg@.skip(1)).halt,
{
    let ghost mut state = before;
    let mut i: usize = 1;
    while i < chars.len()
        invariant
            1 <= i <= chars.len(),
            chars@ == arg@,
            state.halt is None,
            state.holds(*flags, diagnostics@, base),
            state.shorts(arg@.skip(i as int)) == before.shorts(arg@.skip(1)),
        decreases chars.len() - i,
    {
        let c = chars[i];
        proof {
            assert(arg@.skip(i as int)[0] == c);
            assert(arg@.skip(i as int).drop_first() =~= arg@.skip(i + 1));
        }
        let halt = if c == 'i' {
            flags.print_index = true;
            None
        } else if c == 'p' {
            flags.is_progression = true;
            None
        } else if c == 's' {
            flags.is_strict = true;
            None
        } else if c == 'h' || c == '?' {
            Some(Halt::Help)
        } else if c == 'v' {
            Some(Halt::Version)
        } else {
            let token = arg.substring_char(i, i + 1);
            assert(token@ =~= seq![c]);
            reject(token, flags, diagnostics, Ghost(state), Ghost(base))
        };
        proof {
            assert(state.shorts(arg@.skip(i as int)) == state.short(c).shorts(arg@.skip(i + 1)));
            state = state.short(c);
        }
        if halt.is_some() {
            assert(state.shorts(arg@.skip(i + 1)) == state);
            return halt;
        }
        i += 1;
    }
    None
}

/// Reads the command line `args`, whose first entry names the program.
///
/// Each option sets its switch in `flags`; each option that is not known
/// adds its diagnostic to `diagnostics`. The result is the list of the
/// arguments that are no options, or the reason why the run ends here: help
/// or version was asked for, or an option is not known and `--strict` or
/// `-s` stands before it. Nothing behind the argument that ends the run is
/// looked at.
pub fn get_opts(args: Vec<String>, flags: &mut Flags, diagnostics: &mut Vec<String>) -> (outcome:
    Result<Vec<String>, Halt>)
    ensures
        parse(texts(args@), *old(flags)).holds(
            *final(flags),
            final(diagnostics)@,
            texts(old(diagnostics)@),
        ),
        match outcome {
            Ok(indices) => {
                &&& parse(texts(args@), *old(flags)).halt is None
                &&& texts(indices@) == parse(texts(args@), *old(flags)).indices
            },
            Err(halt) => parse(texts(args@), *old(flags)).halt == Some(halt),
        },
{
    let ghost base = texts(diagnostics@);
    let ghost all = texts(args@);
    let ghost mut state = Parse::start(*flags);
    let mut indices: Vec<String> = Vec::new();
    assert(base + state.invalid =~= base);
    assert(texts(indices@) =~= state.indices);
    if args.len() == 0 {
        return Ok(indices);
    }
    let mut i: usize = 1;
    while i < args.len()
        invariant
            1 <= i <= args.len(),
            all == texts(args@),
            base == texts(old(diagnostics)@),
            state.halt is None,
            state.holds(*flags, diagnostics@, base),
            state.indices == texts(indices@),
            state.arguments(all.skip(i as int)) == parse(all, *old(flags)),
        decreases args.len() - i,
    {
        let arg = &args[i];
        let chars = chars_of(arg.as_str());
        proof {
            assert(all.skip(i as int)[0] == arg@);
            assert(all.skip(i as int).drop_first() =~= all.skip(i + 1));
        }
        let halt = if chars.len() == 0 {
            None
        } else if chars[0] != '-' {
            proof {
                lemma_texts_push(indices@, *arg);
            }
            indices.push(arg.clone());
            None
        } else if chars.len() == 1 {
            None
        } else if chars[1] == '-' {
            long_option(arg.as_str(), &chars, flags, diagnostics, Ghost(state), Ghost(base))
        } else {
            short_options(arg.as_str(), &chars, flags, diagnostics, Ghost(state), Ghost(base))
        };
        proof {
            lemma_shorts_keep_indices(state, arg@.skip(1));
            assert(state.arguments(all.skip(i as int)) == state.argument(arg@).arguments(
                all.skip(i + 1),
            ));
            state = state.argument(arg@);
        }
        match halt {
            Some(reason) => {
                assert(state.arguments(all.skip(i + 1)) == state);
                return Err(reason);
            },
            None => {},
        }
        i += 1;
    }
    Ok(indices)
}

} // verus!
