use vstd::prelude::*;

use crate::schedule::Schedule;

verus! {

/// The character of one decimal digit.
pub open spec fn digit_char(d: nat) -> char {
    if d == 0 {
        '0'
    } else if d == 1 {
        '1'
    } else if d == 2 {
        '2'
    } else if d == 3 {
        '3'
    } else if d == 4 {
        '4'
    } else if d == 5 {
        '5'
    } else if d == 6 {
        '6'
    } else if d == 7 {
        '7'
    } else if d == 8 {
        '8'
    } else {
        '9'
    }
}

/// The decimal notation of a number, without a sign and without leading
/// zeros (a single zero for zero).
pub open spec fn spec_decimal(n: nat) -> Seq<char>
    decreases n,
{
    if n < 10 {
        seq![digit_char(n)]
    } else {
        spec_decimal(n / 10).push(digit_char(n % 10))
    }
}

/// One output line for a week with a game or with the given text.
pub open spec fn spec_week_line(week: nat, text: Seq<char>) -> Seq<char> {
    "Week "@ + spec_decimal(week) + ": "@ + text
}

/// The output line of the bye week.
pub open spec fn spec_bye_line(week: nat) -> Seq<char> {
    spec_week_line(week, "Bye"@)
}

/// The lines produced from the given matchup texts when the display-week
/// counter stands at `week`: while matchups remain, a bye line is placed
/// where the counter meets the bye week, and each matchup takes the next
/// counter value; once the matchups are out, nothing more is placed, even
/// if the counter never met the bye week.
pub open spec fn spec_lines_from(ms: Seq<Seq<char>>, bye: nat, week: nat) -> Seq<Seq<char>>
    decreases ms.len(), (if week <= bye { 1int } else { 0int }),
{
    if ms.len() == 0 {
        Seq::empty()
    } else if week == bye {
        seq![spec_bye_line(week)] + spec_lines_from(ms, bye, week + 1)
    } else {
        seq![spec_week_line(week, ms[0])] + spec_lines_from(ms.drop_first(), bye, week + 1)
    }
}

/// The schedule's output lines: display weeks are 1-based.
pub open spec fn spec_schedule_lines(ms: Seq<Seq<char>>, bye: nat) -> Seq<Seq<char>> {
    spec_lines_from(ms, bye, 1)
}

/// A text made of the given lines, each terminated by a newline.
pub open spec fn spec_joined(lines: Seq<Seq<char>>) -> Seq<char>
    decreases lines.len(),
{
    if lines.len() == 0 {
        Seq::empty()
    } else {
        lines[0] + "\n"@ + spec_joined(lines.drop_first())
    }
}

/// When the display-week counter never meets the bye week while matchups
/// remain, the output is one line per matchup, in input order, the line at
/// offset `i` carrying week `week + i` and the text of matchup `i`.
pub proof fn lemma_lines_from_no_bye(ms: Seq<Seq<char>>, bye: nat, week: nat)
    requires
        bye < week || bye >= week + ms.len(),
    ensures
        spec_lines_from(ms, bye, week).len() == ms.len(),
        forall|i: int|
            0 <= i < ms.len() ==> spec_lines_from(ms, bye, week)[i] == spec_week_line(
                (week + i) as nat,
                ms[i],
            ),
    decreases ms.len(),
{
    if ms.len() > 0 {
        lemma_lines_from_no_bye(ms.drop_first(), bye, week + 1);
    }
}

/// A schedule whose bye week is outside the weeks the counter reaches emits
/// exactly one line per matchup, numbered from one in input order.
pub proof fn lemma_lines_no_bye(ms: Seq<Seq<char>>, bye: nat)
    requires
        bye == 0 || bye > ms.len(),
    ensures
        spec_schedule_lines(ms, bye).len() == ms.len(),
        forall|i: int|
            0 <= i < ms.len() ==> spec_schedule_lines(ms, bye)[i] == spec_week_line(
                (i + 1) as nat,
                ms[i],
            ),
{
    lemma_lines_from_no_bye(ms, bye, 1);
}

/// When the counter meets the bye week while matchups remain, the output is
/// one line per matchup plus one bye line: the bye line stands at offset
/// `bye - week`, the matchups before it keep their place, and those after it
/// are shifted up by one week.
pub proof fn lemma_lines_from_with_bye(ms: Seq<Seq<char>>, bye: nat, week: nat)
    requires
        week <= bye < week + ms.len(),
    ensures
        spec_lines_from(ms, bye, week).len() == ms.len() + 1,
        spec_lines_from(ms, bye, week)[bye - week] == spec_bye_line(bye),
        forall|i: int|
            0 <= i < bye - week ==> spec_lines_from(ms, bye, week)[i] == spec_week_line(
                (week + i) as nat,
                ms[i],
            ),
        forall|i: int|
            bye - week < i <= ms.len() ==> spec_lines_from(ms, bye, week)[i] == spec_week_line(
                (week + i) as nat,
                ms[i - 1],
            ),
    decreases ms.len(),
{
    if week == bye {
        lemma_lines_from_no_bye(ms, bye, week + 1);
    } else {
        lemma_lines_from_with_bye(ms.drop_first(), bye, week + 1);
    }
}

/// A bye week the counter reaches before the matchups run out (between one
/// and the matchup count) yields one bye line at that week, with every
/// matchup from that week on shifted up by one.
pub proof fn lemma_lines_with_bye(ms: Seq<Seq<char>>, bye: nat)
    requires
        1 <= bye <= ms.len(),
    ensures
        spec_schedule_lines(ms, bye).len() == ms.len() + 1,
        spec_schedule_lines(ms, bye)[bye - 1] == spec_bye_line(bye),
        forall|i: int|
            0 <= i < bye - 1 ==> spec_schedule_lines(ms, bye)[i] == spec_week_line(
                (i + 1) as nat,
                ms[i],
            ),
        forall|i: int|
            bye - 1 < i <= ms.len() ==> spec_schedule_lines(ms, bye)[i] == spec_week_line(
                (i + 1) as nat,
                ms[i - 1],
            ),
{
    lemma_lines_from_with_bye(ms, bye, 1);
}

/// Whether a character is a decimal digit.
pub open spec fn is_dec_digit(c: char) -> bool {
    c == '0' || c == '1' || c == '2' || c == '3' || c == '4' || c == '5' || c == '6' || c == '7'
        || c == '8' || c == '9'
}

/// Every digit character is a digit.
proof fn lemma_digit_char_is_digit(d: nat)
    ensures
        is_dec_digit(digit_char(d)),
{
}

/// Two digits below ten with the same character are the same digit.
proof fn lemma_digit_char_injective(x: nat, y: nat)
    requires
        x < 10,
        y < 10,
        digit_char(x) == digit_char(y),
    ensures
        x == y,
{
}

/// Every character of a decimal notation is a digit.
pub proof fn lemma_decimal_digits(n: nat)
    ensures
        forall|i: int|
            0 <= i < spec_decimal(n).len() ==> is_dec_digit(#[trigger] spec_decimal(n)[i]),
    decreases n,
{
    if n < 10 {
        assert(spec_decimal(n)[0] == digit_char(n));
        lemma_digit_char_is_digit(n);
    } else {
        lemma_decimal_digits(n / 10);
        lemma_digit_char_is_digit(n % 10);
        let rec = spec_decimal(n / 10);
        assert forall|i: int| 0 <= i < spec_decimal(n).len() implies is_dec_digit(
            #[trigger] spec_decimal(n)[i],
        ) by {
            if i < rec.len() {
                assert(spec_decimal(n)[i] == rec[i]);
            } else {
                assert(spec_decimal(n)[i] == digit_char(n % 10));
            }
        }
    }
}

/// A decimal notation is never empty, and has a second digit exactly for
/// numbers of ten and above.
pub proof fn lemma_decimal_len(n: nat)
    ensures
        spec_decimal(n).len() >= 1,
        n >= 10 <==> spec_decimal(n).len() >= 2,
    decreases n,
{
    if n >= 10 {
        lemma_decimal_len(n / 10);
    }
}

/// Two numbers with the same decimal notation are the same number.
pub proof fn lemma_decimal_injective(a: nat, b: nat)
    requires
        spec_decimal(a) == spec_decimal(b),
    ensures
        a == b,
    decreases a,
{
    lemma_decimal_len(a);
    lemma_decimal_len(b);
    if a < 10 && b < 10 {
        assert(spec_decimal(a)[0] == digit_char(a));
        assert(spec_decimal(b)[0] == digit_char(b));
        lemma_digit_char_injective(a, b);
    } else if a >= 10 && b >= 10 {
        assert(spec_decimal(a).last() == digit_char(a % 10));
        assert(spec_decimal(b).last() == digit_char(b % 10));
        lemma_digit_char_injective(a % 10, b % 10);
        assert(spec_decimal(a / 10) =~= spec_decimal(a).drop_last());
        assert(spec_decimal(b / 10) =~= spec_decimal(b).drop_last());
        lemma_decimal_injective(a / 10, b / 10);
    }
}

/// The week number and the text can be read back out of a week line: two
/// week lines agree only when both agree.
pub proof fn lemma_week_line_determined(w: nat, k: nat, t: Seq<char>, u: Seq<char>)
    requires
        spec_week_line(w, t) == spec_week_line(k, u),
    ensures
        w == k,
        t == u,
{
    reveal_strlit("Week ");
    reveal_strlit(": ");
    let a = spec_decimal(w);
    let b = spec_decimal(k);
    let s1 = spec_week_line(w, t);
    let s2 = spec_week_line(k, u);
    lemma_decimal_digits(w);
    lemma_decimal_digits(k);
    lemma_decimal_len(w);
    lemma_decimal_len(k);
    assert(s1.len() == 7 + a.len() + t.len());
    assert(s2.len() == 7 + b.len() + u.len());
    if a.len() < b.len() {
        let i0 = 5 + a.len() as int;
        assert(s1[i0] == ':');
        assert(s2[i0] == b[a.len() as int]);
        assert(is_dec_digit(s2[i0]));
        assert(false);
    } else if b.len() < a.len() {
        let i0 = 5 + b.len() as int;
        assert(s2[i0] == ':');
        assert(s1[i0] == a[b.len() as int]);
        assert(is_dec_digit(s1[i0]));
        assert(false);
    } else {
        assert forall|i: int| 0 <= i < a.len() implies a[i] == b[i] by {
            assert(s1[5 + i] == a[i]);
            assert(s2[5 + i] == b[i]);
        }
        assert(a =~= b);
        lemma_decimal_injective(w, k);
        assert forall|j: int| 0 <= j < t.len() implies t[j] == u[j] by {
            assert(s1[7 + a.len() + j] == t[j]);
            assert(s2[7 + b.len() + j] == u[j]);
        }
        assert(t =~= u);
    }
}

/// The bye line stands in the output exactly once: at its own week's
/// position, and at no other.
pub proof fn lemma_one_bye_line(ms: Seq<Seq<char>>, bye: nat)
    requires
        1 <= bye <= ms.len(),
    ensures
        spec_schedule_lines(ms, bye).len() == ms.len() + 1,
        spec_schedule_lines(ms, bye)[bye - 1] == spec_bye_line(bye),
        forall|i: int|
            0 <= i < ms.len() + 1 && i != bye - 1 ==> spec_schedule_lines(ms, bye)[i]
                != spec_bye_line(bye),
{
    lemma_lines_with_bye(ms, bye);
    assert forall|i: int|
        0 <= i < ms.len() + 1 && i != bye - 1 implies spec_schedule_lines(ms, bye)[i]
        != spec_bye_line(bye) by {
        if spec_schedule_lines(ms, bye)[i] == spec_bye_line(bye) {
            if i < bye - 1 {
                lemma_week_line_determined((i + 1) as nat, bye, ms[i], "Bye"@);
            } else {
                lemma_week_line_determined((i + 1) as nat, bye, ms[i - 1], "Bye"@);
            }
        }
    }
}

/// One decimal digit as text.
fn digit_str(d: u64) -> (r: &'static str)
    requires
        d < 10,
    ensures
        r@ == seq![digit_char(d as nat)],
{
    proof {
        reveal_strlit("0");
        reveal_strlit("1");
        reveal_strlit("2");
        reveal_strlit("3");
        reveal_strlit("4");
        reveal_strlit("5");
        reveal_strlit("6");
        reveal_strlit("7");
        reveal_strlit("8");
        reveal_strlit("9");
    }
    let r = match d {
        0 => "0",
        1 => "1",
        2 => "2",
        3 => "3",
        4 => "4",
        5 => "5",
        6 => "6",
        7 => "7",
        8 => "8",
        _ => "9",
    };
    proof {
        assert(r@ =~= seq![digit_char(d as nat)]);
    }
    r
}

/// The decimal notation of a number.
pub fn decimal_string(n: u64) -> (r: String)
    ensures
        r@ == spec_decimal(n as nat),
    decreases n,
{
    if n < 10 {
        digit_str(n).to_owned()
    } else {
        let mut s = decimal_string(n / 10);
        s.append(digit_str(n % 10));
        proof {
            assert(s@ =~= spec_decimal(n as nat));
        }
        s
    }
}

/// One output line for a week: `Week <n>: <text>`.
pub fn week_line(week: u64, text: &str) -> (r: String)
    ensures
        r@ == spec_week_line(week as nat, text@),
{
    let mut s = "Week ".to_owned();
    let digits = decimal_string(week);
    s.append(digits.as_str());
    s.append(": ");
    s.append(text);
    proof {
        assert(s@ =~= spec_week_line(week as nat, text@));
    }
    s
}

impl Schedule {
    /// The schedule's output lines, in order: `Week <n>: <matchup>` for each
    /// game, with `Week <n>: Bye` inserted where the display-week counter
    /// meets the bye week.
    pub fn render_lines(&self) -> (lines: Vec<String>)
        requires
            self.matchups@.len() + 1 < usize::MAX,
        ensures
            lines@.map_values(|l: String| l@) == spec_schedule_lines(
                self.texts(),
                self.bye.week as nat,
            ),
    {
        let ghost texts = self.texts();
        let ghost bye = self.bye.week as nat;
        let mut lines: Vec<String> = Vec::new();
        let mut week: usize = 1;
        let mut i: usize = 0;
        proof {
            assert(texts.skip(0) =~= texts);
        }
        while i < self.matchups.len()
            invariant
                i <= self.matchups@.len(),
                self.matchups@.len() + 1 < usize::MAX,
                texts == self.texts(),
                bye == self.bye.week as nat,
                texts.len() == self.matchups@.len(),
                week == i + 1 || (week == i + 2 && self.bye.week < week),
                spec_schedule_lines(texts, bye) == lines@.map_values(|l: String| l@)
                    + spec_lines_from(texts.skip(i as int), bye, week as nat),
            decreases self.matchups@.len() - i,
        {
            let ghost ms = texts.skip(i as int);
            proof {
                assert(ms.len() == texts.len() - i);
                assert(ms[0] == texts[i as int]);
            }
            if self.bye.is_bye_week(week) {
                let ghost done0 = lines@.map_values(|l: String| l@);
                let line = week_line(week as u64, "Bye");
                proof {
                    assert(spec_lines_from(ms, bye, week as nat) == seq![
                        spec_bye_line(week as nat),
                    ] + spec_lines_from(ms, bye, (week + 1) as nat));
                }
                lines.push(line);
                week = week + 1;
                proof {
                    assert(lines@.map_values(|l: String| l@) =~= done0.push(line@));
                    assert(done0 + (seq![line@] + spec_lines_from(ms, bye, week as nat))
                        =~= done0.push(line@) + spec_lines_from(ms, bye, week as nat));
                }
            }
            let ghost done1 = lines@.map_values(|l: String| l@);
            let m = &self.matchups[i];
            let line = week_line(week as u64, m.text());
            proof {
                assert(spec_lines_from(ms, bye, week as nat) == seq![
                    spec_week_line(week as nat, ms[0]),
                ] + spec_lines_from(ms.drop_first(), bye, (week + 1) as nat));
                assert(ms.drop_first() =~= texts.skip(i + 1));
            }
            lines.push(line);
            i = i + 1;
            week = week + 1;
            proof {
                assert(lines@.map_values(|l: String| l@) =~= done1.push(line@));
                assert(done1 + (seq![line@] + spec_lines_from(texts.skip(i as int), bye, week as nat))
                    =~= done1.push(line@) + spec_lines_from(texts.skip(i as int), bye, week as nat));
            }
        }
        proof {
            assert(texts.skip(texts.len() as int) =~= Seq::<Seq<char>>::empty());
            assert(spec_schedule_lines(texts, bye) =~= lines@.map_values(|l: String| l@));
        }
        lines
    }

    /// The whole schedule as one text, each line terminated by a newline.
    pub fn render(&self) -> (r: String)
        requires
            self.matchups@.len() + 1 < usize::MAX,
        ensures
            r@ == spec_joined(spec_schedule_lines(self.texts(), self.bye.week as nat)),
    {
        let lines = self.render_lines();
        let ghost all = lines@.map_values(|l: String| l@);
        let mut r = String::new();
        let mut i: usize = 0;
        proof {
            assert(all.skip(0) =~= all);
            assert(r@ + spec_joined(all) =~= spec_joined(all));
        }
        while i < lines.len()
            invariant
                i <= lines@.len(),
                all == lines@.map_values(|l: String| l@),
                spec_joined(all) == r@ + spec_joined(all.skip(i as int)),
            decreases lines@.len() - i,
        {
            proof {
                assert(all.skip(i as int).len() == all.len() - i);
                assert(all.skip(i as int)[0] == all[i as int]);
                assert(all.skip(i as int).drop_first() =~= all.skip(i + 1));
            }
            r.append(lines[i].as_str());
            r.append("\n");
            i = i + 1;
            proof {
                assert(spec_joined(all) =~= r@ + spec_joined(all.skip(i as int)));
            }
        }
        proof {
            assert(all.skip(all.len() as int) =~= Seq::<Seq<char>>::empty());
            assert(r@ =~= spec_joined(all));
        }
        r
    }
}

} // verus!
