//! The words of a console command line.

use vstd::prelude::*;

verus! {

/// The pieces that `s` falls into at its spaces. There is always at least
/// one piece; two spaces in a row have an empty piece between them.
pub open spec fn split_on_space(s: Seq<char>) -> Seq<Seq<char>>
    decreases s.len(),
{
    if s.len() == 0 {
        seq![Seq::empty()]
    } else {
        let front = split_on_space(s.drop_last());
        if s.last() == ' ' {
            front.push(Seq::empty())
        } else {
            front.drop_last().push(front.last().push(s.last()))
        }
    }
}

/// There is always at least one piece.
pub proof fn lemma_split_not_empty(s: Seq<char>)
    ensures
        split_on_space(s).len() >= 1,
    decreases s.len(),
{
    if s.len() > 0 {
        lemma_split_not_empty(s.drop_last());
    }
}

/// The value of a decimal digit.
pub open spec fn digit_value(c: char) -> Option<nat> {
    if '0' <= c <= '9' {
        Some((c as nat - '0' as nat) as nat)
    } else {
        None
    }
}

/// The value of a run of decimal digits; nothing where another character occurs.
pub open spec fn digits_value(s: Seq<char>) -> Option<nat>
    decreases s.len(),
{
    if s.len() == 0 {
        Some(0)
    } else {
        match (digits_value(s.drop_last()), digit_value(s.last())) {
            (Some(value), Some(digit)) => Some(value * 10 + digit),
            _ => None,
        }
    }
}

/// The number that `s` is read as: decimal digits, at least one, with an
/// optional plus sign in front, and a value that fits.
pub open spec fn parsed_usize(s: Seq<char>) -> Option<usize> {
    let body = if s.len() > 0 && s[0] == '+' {
        s.drop_first()
    } else {
        s
    };
    if body.len() == 0 {
        None
    } else {
        match digits_value(body) {
            Some(value) => if value <= usize::MAX {
                Some(value as usize)
            } else {
                None
            },
            None => None,
        }
    }
}

/// The digits in front of a run of digits are a run of digits themselves, of
/// no greater value.
pub proof fn lemma_digits_prefix(s: Seq<char>, k: int)
    requires
        0 <= k <= s.len(),
        digits_value(s) is Some,
    ensures
        digits_value(s.take(k)) is Some,
        digits_value(s.take(k))->0 <= digits_value(s)->0,
    decreases s.len(),
{
    if k == s.len() {
        assert(s.take(k) =~= s);
    } else {
        lemma_digits_prefix(s.drop_last(), k);
        assert(s.drop_last().take(k) =~= s.take(k));
    }
}

/// Appends `c` to `s` with `String::push`. The contract claims that the
/// string grows by exactly that character.
#[verifier::external_body]
fn push_char(s: &mut String, c: char)
    ensures
        final(s)@ == old(s)@.push(c),
{
    s.push(c);
}

spec fn views(words: Seq<String>) -> Seq<Seq<char>> {
    words.map_values(|w: String| w@)
}

/// A command line, split into the command's name and its arguments.
pub struct CommandArgs {
    _name: String,
    _args: Vec<String>,
}

impl CommandArgs {
    /// The name of the command.
    pub closed spec fn command(&self) -> Seq<char> {
        self._name@
    }

    /// The arguments in order.
    pub closed spec fn arguments(&self) -> Seq<Seq<char>> {
        views(self._args@)
    }

    /// Splits `line` at its spaces: the first piece is the command's name,
    /// the others are its arguments.
    pub fn from_line(line: &str) -> (r: Self)
        ensures
            r.command() == split_on_space(line@)[0],
            r.arguments() == split_on_space(line@).skip(1),
    {
        let mut words: Vec<String> = Vec::new();
        let mut word = String::new();
        assert(line@.take(0) =~= Seq::<char>::empty());
        assert(views(words@).push(word@) =~= seq![Seq::<char>::empty()]);
        for c in iter: line.chars()
            invariant
                iter.seq() == line@,
                views(words@).push(word@) == split_on_space(line@.take(iter.index() as int)),
        {
            let ghost i = iter.index() as int;
            let ghost before = line@.take(i);
            let ghost pieces = split_on_space(before);
            assert(c == line@[i]);
            assert(line@.take(i + 1).drop_last() =~= before);
            assert(pieces.last() == word@);
            assert(pieces.drop_last() =~= views(words@));
            if c == ' ' {
                words.push(word);
                word = String::new();
                assert(views(words@).push(word@) =~= pieces.push(Seq::empty()));
            } else {
                push_char(&mut word, c);
                assert(views(words@).push(word@) =~= pieces.drop_last().push(
                    pieces.last().push(c),
                ));
            }
        }
        assert(line@.take(line@.len() as int) =~= line@);
        let ghost all = views(words@).push(word@);
        words.push(word);
        assert(views(words@) =~= all);
        let _name = words.remove(0);
        assert(views(words@) =~= all.skip(1));
        CommandArgs { _name, _args: words }
    }

    /// The name of the command.
    pub fn name(&self) -> (r: &str)
        ensures
            r@ == self.command(),
    {
        self._name.as_str()
    }

    /// Number of arguments.
    pub fn args(&self) -> (n: usize)
        ensures
            n == self.arguments().len(),
    {
        self._args.len()
    }

    /// The argument at `arg_index`, if there is one.
    pub fn get_arg_str(&self, arg_index: usize) -> (r: Option<&str>)
        ensures
            match r {
                Some(text) => arg_index < self.arguments().len() && text@
                    == self.arguments()[arg_index as int],
                None => arg_index >= self.arguments().len(),
            },
    {
        if arg_index < self._args.len() {
            Some(self._args[arg_index].as_str())
        } else {
            None
        }
    }

    /// The argument at `arg_index` as a number, where there is one and it
    /// reads as a number.
    pub fn get_arg_int(&self, arg_index: usize) -> (r: Option<usize>)
        ensures
            r == if arg_index < self.arguments().len() {
                parsed_usize(self.arguments()[arg_index as int])
            } else {
                None
            },
    {
        match self.get_arg_str(arg_index) {
            Some(text) => parse_usize(text),
            None => None,
        }
    }
}

/// Reads `text` as a number.
pub fn parse_usize(text: &str) -> (r: Option<usize>)
    ensures
        r == parsed_usize(text@),
{
    let ghost s = text@;
    let ghost signed = s.len() > 0 && s[0] == '+';
    let ghost body = if signed {
        s.drop_first()
    } else {
        s
    };
    let mut value: usize = 0;
    let mut first: bool = true;
    let mut any: bool = false;
    assert(body.take(0) =~= Seq::<char>::empty());
    for c in iter: text.chars()
        invariant
            iter.seq() == s,
            s == text@,
            signed == (s.len() > 0 && s[0] == '+'),
            body == if signed {
                s.drop_first()
            } else {
                s
            },
            first == (iter.index() == 0),
            ({
                let done = if signed && iter.index() > 0 {
                    iter.index() - 1
                } else {
                    iter.index() as int
                };
                &&& 0 <= done <= body.len()
                &&& any == (done > 0)
                &&& digits_value(body.take(done)) == Some(value as nat)
            }),
    {
        let ghost i = iter.index() as int;
        assert(c == s[i]);
        if first && c == '+' {
            first = false;
        } else {
            first = false;
            let ghost done = if signed {
                i - 1
            } else {
                i
            };
            assert(c == body[done]);
            assert(body.take(done + 1).drop_last() =~= body.take(done));
            if !('0' <= c && c <= '9') {
                proof {
                    assert(digit_value(body.take(done + 1).last()) is None);
                    assert(digits_value(body.take(done + 1)) is None);
                    if digits_value(body) is Some {
                        lemma_digits_prefix(body, done + 1);
                    }
                }
                return None;
            }
            let digit: usize = (c as u32 - '0' as u32) as usize;
            let next: Option<usize> = match value.checked_mul(10) {
                Some(tens) => tens.checked_add(digit),
                None => None,
            };
            match next {
                Some(v) => {
                    value = v;
                    any = true;
                },
                None => {
                    proof {
                        assert(digit_value(body.take(done + 1).last()) == Some(digit as nat));
                        assert(digits_value(body.take(done + 1)) == Some(
                            (value * 10 + digit) as nat,
                        ));
                        if digits_value(body) is Some {
                            lemma_digits_prefix(body, done + 1);
                        }
                    }
                    return None;
                },
            }
        }
    }
    assert(body.take(body.len() as int) =~= body);
    if any {
        Some(value)
    } else {
        None
    }
}

} // verus!
