use vstd::prelude::*;

verus! {

/// The character of a decimal digit.
pub open spec fn digit_char(d: nat) -> char {
    if d == 0 {
        '0'
    } else if d == 1 {
        '1'
    } else if d == 2 {
        '2'
    } else if d == 3 {
        '3'
    } else if d == 4 {
        '4'
    } else if d == 5 {
        '5'
    } else if d == 6 {
        '6'
    } else if d == 7 {
        '7'
    } else if d == 8 {
        '8'
    } else {
        '9'
    }
}

/// The decimal notation of `n`, without sign or leading zeros.
pub open spec fn decimal(n: nat) -> Seq<char>
    decreases n,
{
    if n < 10 {
        seq![digit_char(n)]
    } else {
        decimal(n / 10).push(digit_char(n % 10))
    }
}

/// The words joined with single spaces between them.
pub open spec fn joined(words: Seq<Seq<char>>) -> Seq<char>
    decreases words.len(),
{
    if words.len() == 0 {
        Seq::empty()
    } else if words.len() == 1 {
        words[0]
    } else {
        joined(words.drop_last()) + seq![' '] + words.last()
    }
}

/// The character sequences of a list of strings.
pub open spec fn texts(v: Seq<String>) -> Seq<Seq<char>> {
    v.map_values(|s: String| s@)
}

/// A command line as it is shown: the program, one space, then the
/// arguments joined with spaces.
pub open spec fn command_line_of(command: Seq<char>, args: Seq<Seq<char>>) -> Seq<char> {
    command + seq![' '] + joined(args)
}

fn digit_text(d: u64) -> (r: &'static str)
    requires
        d < 10,
    ensures
        r@ == seq![digit_char(d as nat)],
{
    proof {
        reveal_strlit("0");
        reveal_strlit("1");
        reveal_strlit("2");
        reveal_strlit("3");
        reveal_strlit("4");
        reveal_strlit("5");
        reveal_strlit("6");
        reveal_strlit("7");
        reveal_strlit("8");
        reveal_strlit("9");
    }
    if d == 0 {
        "0"
    } else if d == 1 {
        "1"
    } else if d == 2 {
        "2"
    } else if d == 3 {
        "3"
    } else if d == 4 {
        "4"
    } else if d == 5 {
        "5"
    } else if d == 6 {
        "6"
    } else if d == 7 {
        "7"
    } else if d == 8 {
        "8"
    } else {
        "9"
    }
}

/// The decimal notation of `n`.
pub fn decimal_string(n: u64) -> (r: String)
    ensures
        r@ == decimal(n as nat),
    decreases n,
{
    if n < 10 {
        String::from_str(digit_text(n))
    } else {
        let mut s = decimal_string(n / 10);
        s.append(digit_text(n % 10));
        s
    }
}

/// The command line recorded for a program and its arguments.
pub fn command_line(command: &String, args: &Vec<String>) -> (r: String)
    ensures
        r@ == command_line_of(command@, texts(args@)),
{
    proof {
        reveal_strlit(" ");
    }
    let ghost words = texts(args@);
    let mut s = command.clone();
    s.append(" ");
    let mut i: usize = 0;
    while i < args.len()
        invariant
            i <= args@.len(),
            words == texts(args@),
            s@ == command@ + seq![' '] + joined(words.take(i as int)),
        decreases args@.len() - i,
    {
        let ghost before = s@;
        proof {
            reveal_strlit(" ");
        }
        if i > 0 {
            s.append(" ");
        }
        let ghost middle = s@;
        s.append(args[i].as_str());
        assert(s@ == middle + args@[i as int]@);
        proof {
            let next = words.take(i + 1);
            assert(next.drop_last() =~= words.take(i as int));
            assert(next.last() == args@[i as int]@);
            if i == 0 {
                assert(words.take(0) =~= Seq::<Seq<char>>::empty());
                assert(s@ =~= command@ + seq![' '] + joined(next));
            } else {
                assert(next.len() == i + 1);
                assert(joined(next) == joined(words.take(i as int)) + seq![' '] + args@[i as int]@);
                assert(s@ =~= command@ + seq![' '] + joined(next));
            }
        }
        i = i + 1;
    }
    assert(words.take(args@.len() as int) =~= words);
    s
}

} // verus!
