//! Normalisation of key characters and of command-parameter substitution.

use vstd::prelude::*;
use vstd::string::StringExecFns;

verus! {

/// The normalised key name of one typed character: the three characters that
/// cannot appear verbatim in a binding string get word names, every other
/// character stands for itself.
pub open spec fn input_key_spec(ch: char) -> Seq<char> {
    if ch == ' ' {
        "space"@
    } else if ch == '+' {
        "add"@
    } else if ch == '-' {
        "subtract"@
    } else {
        seq![ch]
    }
}

/// Relies on `String::push`: appends exactly one character.
#[verifier::external_body]
fn push_char(s: &mut String, ch: char)
    ensures
        final(s)@ == old(s)@.push(ch),
{
    s.push(ch);
}

/// Turns one typed character into the key name used by binding strings.
pub fn char_to_input_key(ch: char) -> (r: String)
    ensures
        r@ == input_key_spec(ch),
{
    let mut input_key = String::new();
    if ch == ' ' {
        input_key.append("space");
    } else if ch == '+' {
        input_key.append("add");
    } else if ch == '-' {
        input_key.append("subtract");
    } else {
        push_char(&mut input_key, ch);
    }
    proof {
        assert(Seq::<char>::empty() + "space"@ =~= "space"@);
        assert(Seq::<char>::empty() + "add"@ =~= "add"@);
        assert(Seq::<char>::empty() + "subtract"@ =~= "subtract"@);
        assert(Seq::<char>::empty().push(ch) =~= seq![ch]);
    }
    input_key
}

/// Every non-overlapping occurrence of `from` in `s`, scanned left to right,
/// replaced by `to`.
pub open spec fn replace_all(s: Seq<char>, from: Seq<char>, to: Seq<char>) -> Seq<char>
    decreases s.len(),
    when from.len() >= 1
{
    if s.len() < from.len() {
        s
    } else if s.take(from.len() as int) == from {
        to + replace_all(s.skip(from.len() as int), from, to)
    } else {
        seq![s[0]] + replace_all(s.skip(1), from, to)
    }
}

/// The string after substituting each (name, value) pair in order: the first
/// pair is replaced everywhere, then the second in that result, and so on.
pub open spec fn substitute_all(s: Seq<char>, pairs: Seq<(Seq<char>, Seq<char>)>) -> Seq<char>
    decreases pairs.len(),
{
    if pairs.len() == 0 {
        s
    } else {
        substitute_all(replace_all(s, pairs[0].0, pairs[0].1), pairs.skip(1))
    }
}

/// The view of a substitution table: each pair as its character sequences.
pub open spec fn pairs_view(v: Seq<(String, String)>) -> Seq<(Seq<char>, Seq<char>)> {
    v.map_values(|p: (String, String)| (p.0@, p.1@))
}

/// Substituting one more pair replaces it in the result of all earlier ones.
pub proof fn lemma_substitute_push(
    s: Seq<char>,
    pairs: Seq<(Seq<char>, Seq<char>)>,
    p: (Seq<char>, Seq<char>),
)
    ensures
        substitute_all(s, pairs.push(p)) == replace_all(substitute_all(s, pairs), p.0, p.1),
    decreases pairs.len(),
{
    reveal_with_fuel(substitute_all, 3);
    if pairs.len() == 0 {
        assert(pairs.push(p).skip(1) =~= Seq::<(Seq<char>, Seq<char>)>::empty());
        assert(pairs.push(p)[0] == p);
    } else {
        assert(pairs.push(p).skip(1) =~= pairs.skip(1).push(p));
        assert(pairs.push(p)[0] == pairs[0]);
        lemma_substitute_push(replace_all(s, pairs[0].0, pairs[0].1), pairs.skip(1), p);
    }
}

/// Relies on `str::replace`: replaces every non-overlapping match of `from`
/// with `to`, scanning left to right.
#[verifier::external_body]
fn replace_str(s: &str, from: &str, to: &str) -> (r: String)
    requires
        from@.len() >= 1,
    ensures
        r@ == replace_all(s@, from@, to@),
{
    s.replace(from, to)
}

/// Substitutes every variable of the table into the command-argument string,
/// pair by pair in table order.
pub fn substitute_command_parameters(string: &str, var_map: &Vec<(String, String)>) -> (r: String)
    requires
        forall|i: int| 0 <= i < var_map@.len() ==> (#[trigger] var_map@[i]).0@.len() >= 1,
    ensures
        r@ == substitute_all(string@, pairs_view(var_map@)),
{
    let mut result: String = string.to_owned();
    let mut i: usize = 0;
    proof {
        assert(pairs_view(var_map@).take(0) =~= Seq::<(Seq<char>, Seq<char>)>::empty());
    }
    while i < var_map.len()
        invariant
            i <= var_map@.len(),
            forall|k: int| 0 <= k < var_map@.len() ==> (#[trigger] var_map@[k]).0@.len() >= 1,
            result@ == substitute_all(string@, pairs_view(var_map@).take(i as int)),
        decreases var_map@.len() - i,
    {
        let pair = &var_map[i];
        proof {
            lemma_substitute_push(
                string@,
                pairs_view(var_map@).take(i as int),
                pairs_view(var_map@)[i as int],
            );
            assert(pairs_view(var_map@).take(i as int + 1) =~= pairs_view(var_map@).take(
                i as int,
            ).push(pairs_view(var_map@)[i as int]));
        }
        result = replace_str(result.as_str(), pair.0.as_str(), pair.1.as_str());
        i += 1;
    }
    proof {
        assert(pairs_view(var_map@).take(var_map@.len() as int) =~= pairs_view(var_map@));
    }
    result
}

} // verus!
