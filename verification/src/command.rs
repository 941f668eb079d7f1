//! The command line that is handed to the shell.

use vstd::prelude::*;
use vstd::string::StringExecFns;

verus! {

/// The tokens in order, with one space between neighbours and none at
/// either end. Nothing is quoted or escaped: the shell reads the line as
/// the user typed it.
pub open spec fn joined(tokens: Seq<Seq<char>>) -> Seq<char>
    decreases tokens.len(),
{
    if tokens.len() == 0 {
        Seq::empty()
    } else if tokens.len() == 1 {
        tokens[0]
    } else {
        joined(tokens.drop_last()) + seq![' '] + tokens.last()
    }
}

/// Joins the words of the command into the line that the shell is given.
pub fn command_line(tokens: &Vec<String>) -> (line: String)
    ensures
        line@ == joined(tokens.deep_view()),
{
    let ghost words = tokens.deep_view();
    let mut line = String::new();
    let mut i: usize = 0;
    assert(words.take(0) =~= Seq::empty());
    while i < tokens.len()
        invariant
            i <= tokens.len(),
            words == tokens.deep_view(),
            line@ == joined(words.take(i as int)),
        decreases tokens.len() - i,
    {
        if i > 0 {
            proof {
                reveal_strlit(" ");
            }
            line.append(" ");
            assert(" "@ =~= seq![' ']);
        }
        line.append(tokens[i].as_str());
        proof {
            let now = words.take(i + 1);
            assert(now.drop_last() =~= words.take(i as int));
            assert(now.last() == tokens[i as int]@);
        }
        i += 1;
    }
    assert(words.take(tokens.len() as int) =~= words);
    line
}

} // verus!
