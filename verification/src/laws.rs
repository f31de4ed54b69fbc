//! What holds of every run.

use vstd::prelude::*;
use crate::engine::emission;
use crate::line::line_at;
use crate::line::not_a_number;
use crate::line::Value;
use crate::options::Flags;
use crate::options::Halt;
use crate::options::Parse;
use crate::options::parse;
use crate::run::index_named;
use crate::run::script;
use crate::run::steps_from;
use crate::run::Status;
use crate::run::StepView;
use crate::sequence::fib;
use crate::sequence::lemma_fits_through_last_exact_index;
use crate::sequence::LAST_EXACT_INDEX;
use crate::text::decimal;

verus! {

/// `flags` with progression switched on or off.
pub open spec fn with_progression(flags: Flags, on: bool) -> Flags {
    Flags { is_progression: on, is_strict: flags.is_strict, print_index: flags.print_index }
}

/// The index whose line stands at place `place` among the lines for
/// `index`.
pub open spec fn index_at(index: nat, flags: Flags, place: int) -> nat {
    if flags.is_progression {
        place as nat
    } else {
        index
    }
}

/// Through index 186 every line holds its term of the sequence, exactly;
/// its text is the decimal numeral of the term behind the beginning of the
/// line.
pub proof fn law_exact_through_last_exact_index(index: nat, flags: Flags, place: int)
    requires
        index <= LAST_EXACT_INDEX,
        0 <= place < emission(index, flags).len(),
    ensures
        fib(index_at(index, flags, place)) <= u128::MAX,
        emission(index, flags)[place].value == Value::Exact(
            fib(index_at(index, flags, place)) as u128,
        ),
        emission(index, flags)[place].text() == Some(
            emission(index, flags)[place].lead() + decimal(fib(index_at(index, flags, place))),
        ),
{
    lemma_fits_through_last_exact_index(index_at(index, flags, place));
}

/// Beyond index 186 the line for an index holds no term: it stands for the
/// approximation of that index, and its text is left to floating point.
pub proof fn law_approximate_beyond_last_exact_index(index: usize, flags: Flags)
    requires
        index > LAST_EXACT_INDEX,
    ensures
        fib(index as nat) > u128::MAX,
        emission(index as nat, flags).last().value == Value::Approximate(index),
        emission(index as nat, flags).last().text() is None,
{
    lemma_fits_through_last_exact_index(index as nat);
}

/// Under progression an index has one line more than its number, and each
/// of them is the one line that its own index has without progression.
pub proof fn law_progression(index: nat, flags: Flags, place: int)
    requires
        flags.is_progression,
        0 <= place <= index,
    ensures
        emission(index, flags).len() == index + 1,
        emission(place as nat, with_progression(flags, false)).len() == 1,
        emission(index, flags)[place] == emission(place as nat, with_progression(flags, false))[0],
{
}

/// Where the index is to be shown, every line begins with the decimal
/// numeral of its index, a colon and a space, whatever its value is.
pub proof fn law_index_in_front(index: nat, flags: Flags, place: int)
    requires
        flags.print_index,
        0 <= place < emission(index, flags).len(),
    ensures
        emission(index, flags)[place].lead() == decimal(index_at(index, flags, place)) + seq![
            ':',
            ' ',
        ],
{
}

/// The last line of a progression is the one line that the index has
/// without progression, on either side of index 186.
pub proof fn law_last_of_progression(index: nat, flags: Flags)
    ensures
        emission(index, with_progression(flags, false)).len() == 1,
        emission(index, with_progression(flags, true)).last() == emission(
            index,
            with_progression(flags, false),
        )[0],
{
}

/// A token that names no index has one line, which says so and begins with
/// the token itself where the index is to be shown. A strict run ends
/// there in failure; any other run goes on with the next token.
pub proof fn law_not_a_number(tokens: Seq<Seq<char>>, flags: Flags, at: int)
    requires
        0 <= at < tokens.len(),
        index_named(tokens[at]) is None,
    ensures
        steps_from(tokens, flags, at)[0] == StepView::Line(
            not_a_number(tokens[at], flags.print_index),
        ),
        not_a_number(tokens[at], true).text() == Some(
            tokens[at] + seq![':', ' '] + seq!['N', 'a', 'N'],
        ),
        not_a_number(tokens[at], false).text() == Some(seq!['N', 'a', 'N']),
        flags.is_strict ==> steps_from(tokens, flags, at).drop_first() == seq![
            StepView::Exit(Status::Failure),
        ],
        !flags.is_strict ==> steps_from(tokens, flags, at).drop_first() == steps_from(
            tokens,
            flags,
            at + 1,
        ),
{
    let first = StepView::Line(not_a_number(tokens[at], flags.print_index));
    assert(seq![first].push(StepView::Exit(Status::Failure)).drop_first() =~= seq![
        StepView::Exit(Status::Failure),
    ]);
    assert((seq![first] + steps_from(tokens, flags, at + 1)).drop_first() =~= steps_from(
        tokens,
        flags,
        at + 1,
    ));
    assert(Seq::<char>::empty() + seq!['N', 'a', 'N'] =~= seq!['N', 'a', 'N']);
}

/// Without a token a run writes the usage text and ends in success.
pub proof fn law_no_token(flags: Flags)
    ensures
        script(Seq::empty(), flags) == seq![StepView::Usage, StepView::Exit(Status::Success)],
{
}

/// Every run comes to an end: the steps from any token on close with the
/// end of the run.
pub proof fn law_run_ends(tokens: Seq<Seq<char>>, flags: Flags, from: int)
    ensures
        steps_from(tokens, flags, from).len() > 0,
        steps_from(tokens, flags, from).last() is Exit,
    decreases tokens.len() - from,
{
    if 0 <= from < tokens.len() {
        law_run_ends(tokens, flags, from + 1);
    }
}

/// Whether an argument is kept to be read as an index: it is not empty and
/// does not begin with `-`.
pub open spec fn is_no_option(arg: Seq<char>) -> bool {
    arg.len() > 0 && arg[0] != '-'
}

/// Where the options do not end the run, the arguments kept are those
/// behind the first that are no options, in the order given.
pub proof fn law_indices_kept(args: Seq<Seq<char>>, flags: Flags)
    requires
        args.len() > 0,
        parse(args, flags).halt is None,
    ensures
        parse(args, flags).indices == args.skip(1).filter(|arg: Seq<char>| is_no_option(arg)),
{
    lemma_indices_kept(Parse::start(flags), args.skip(1));
    assert(Seq::<Seq<char>>::empty() + args.skip(1).filter(|arg: Seq<char>| is_no_option(arg))
        =~= args.skip(1).filter(|arg: Seq<char>| is_no_option(arg)));
}

/// The arguments kept after a list of arguments that does not end the run
/// are those kept before and those of the list that are no options.
proof fn lemma_indices_kept(before: Parse, args: Seq<Seq<char>>)
    requires
        before.arguments(args).halt is None,
    ensures
        before.arguments(args).indices == before.indices + args.filter(
            |arg: Seq<char>| is_no_option(arg),
        ),
    decreases args.len(),
{
    let keep = |arg: Seq<char>| is_no_option(arg);
    if before.halt is Some {
    } else if args.len() == 0 {
        assert(args.filter(keep) =~= Seq::<Seq<char>>::empty()) by {
            reveal(Seq::filter);
        }
        assert(before.indices + Seq::<Seq<char>>::empty() =~= before.indices);
    } else {
        let first = args[0];
        let next = before.argument(first);
        lemma_indices_kept(next, args.drop_first());
        crate::options::lemma_shorts_keep_indices(before, first.skip(1));
        assert(args =~= seq![first] + args.drop_first());
        Seq::filter_distributes_over_add(seq![first], args.drop_first(), keep);
        assert(seq![first].filter(keep) =~= if is_no_option(first) {
            seq![first]
        } else {
            Seq::<Seq<char>>::empty()
        }) by {
            reveal_with_fuel(Seq::filter, 2);
            assert(seq![first].drop_last() =~= Seq::<Seq<char>>::empty());
        }
        assert(next.indices =~= before.indices + seq![first].filter(keep));
        assert(before.arguments(args).indices =~= before.indices + args.filter(keep));
    }
}

/// An unknown option leaves its diagnostic; it ends the run, with status
/// one, where the run is strict by then, and nowhere else.
pub proof fn law_unknown_option(before: Parse, token: Seq<char>)
    ensures
        before.reject(token).invalid == before.invalid.push("Invalid Option: "@ + token),
        before.reject(token).flags == before.flags,
        before.reject(token).indices == before.indices,
        before.flags.is_strict ==> before.reject(token).halt == Some(Halt::InvalidOption),
        !before.flags.is_strict ==> before.reject(token).halt is None,
{
}

} // verus!
