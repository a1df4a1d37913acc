//! The latency benchmark of the chat program: each benchmark message carries
//! the time it was sent, and the receiver records how long ago that was.

use vstd::prelude::*;

use crate::clock::{clock_reading, now_micros};
use crate::message::Message;
use crate::roster::{ClientUser, Roster};
use crate::text::{
    decimal_of, decimal_text, lemma_decimal_roundtrip, lemma_decimal_word, parse_i64,
    parse_i64_spec, split_whitespace, whitespace_words,
};

verus! {

/// Whether every number in `xs` fits an `i64`.
pub open spec fn fits_i64(xs: Seq<int>) -> bool {
    forall|i: int| 0 <= i < xs.len() ==> i64::MIN <= #[trigger] xs[i] <= i64::MAX
}

/// The time since each word that spells a time, in order.
pub open spec fn word_differences(words: Seq<Seq<char>>, now: int) -> Seq<int>
    decreases words.len(),
{
    if words.len() == 0 {
        Seq::empty()
    } else {
        let earlier = word_differences(words.drop_last(), now);
        match parse_i64_spec(words.last()) {
            Some(t) => earlier.push(now - t),
            None => earlier,
        }
    }
}

/// The times since the sending times a message carries: the whole text, if
/// it is a time, or else each of its words that is one.
pub open spec fn time_differences_of(data: Seq<char>, now: int) -> Seq<int> {
    match parse_i64_spec(data) {
        Some(t) => seq![now - t],
        None => word_differences(whitespace_words(data), now),
    }
}

/// The differences recorded for one message: those of its text once for
/// every peer whose address it was sent from, in the order of the peers.
pub open spec fn message_differences(
    clients: Seq<ClientUser>,
    sender: Seq<char>,
    data: Seq<char>,
    now: int,
) -> Seq<int>
    decreases clients.len(),
{
    if clients.len() == 0 {
        Seq::empty()
    } else {
        message_differences(clients.drop_last(), sender, data, now) + if clients.last().addr@
            == sender {
            time_differences_of(data, now)
        } else {
            Seq::empty()
        }
    }
}

/// The differences recorded for a batch of messages, in order.
pub open spec fn bench_differences(clients: Seq<ClientUser>, msgs: Seq<Message>, now: int) -> Seq<int>
    decreases msgs.len(),
{
    if msgs.len() == 0 {
        Seq::empty()
    } else {
        bench_differences(clients, msgs.drop_last(), now) + message_differences(
            clients,
            msgs.last().sender@,
            msgs.last().data@,
            now,
        )
    }
}

proof fn lemma_fits_split(a: Seq<int>, b: Seq<int>)
    requires
        fits_i64(a + b),
    ensures
        fits_i64(a),
        fits_i64(b),
{
    assert forall|i: int| 0 <= i < a.len() implies i64::MIN <= #[trigger] a[i] <= i64::MAX by {
        assert((a + b)[i] == a[i]);
    }
    assert forall|i: int| 0 <= i < b.len() implies i64::MIN <= #[trigger] b[i] <= i64::MAX by {
        assert((a + b)[a.len() + i] == b[i]);
    }
}

/// The integer values of a vector of times.
pub open spec fn as_ints(v: Seq<i64>) -> Seq<int> {
    v.map_values(|x: i64| x as int)
}

/// Appends `more` to `out`.
fn append_all(out: &mut Vec<i64>, more: Vec<i64>)
    ensures
        as_ints(final(out)@) == as_ints(old(out)@) + as_ints(more@),
{
    let mut i: usize = 0;
    let ghost start = out@;
    while i < more.len()
        invariant
            i <= more@.len(),
            out@ == start + more@.subrange(0, i as int),
        decreases more@.len() - i,
    {
        out.push(more[i]);
        i = i + 1;
        assert(out@ =~= start + more@.subrange(0, i as int));
    }
    assert(more@.subrange(0, more@.len() as int) =~= more@);
    assert(as_ints(out@) =~= as_ints(start) + as_ints(more@));
}

/// The times since the sending times that a message's text carries, or
/// `None` where one of them does not fit an `i64`.
fn checked_time_differences(data: &String, now: i64) -> (res: Option<Vec<i64>>)
    ensures
        match res {
            Some(v) => fits_i64(time_differences_of(data@, now as int)) && as_ints(v@)
                == time_differences_of(data@, now as int),
            None => !fits_i64(time_differences_of(data@, now as int)),
        },
{
    match parse_i64(data.as_str()) {
        Some(t) => {
            match now.checked_sub(t) {
                Some(d) => {
                    let mut res: Vec<i64> = Vec::new();
                    res.push(d);
                    assert(as_ints(res@) =~= seq![now - t]);
                    Some(res)
                },
                None => {
                    assert(!(i64::MIN <= seq![now - t][0] <= i64::MAX));
                    None
                },
            }
        },
        None => {
            let words = split_whitespace(data.as_str());
            let ghost ws = whitespace_words(data@);
            let mut res: Vec<i64> = Vec::new();
            let mut i: usize = 0;
            while i < words.len()
                invariant
                    i <= words@.len(),
                    words@.map_values(|w: String| w@) == ws,
                    parse_i64_spec(data@) is None,
                    ws == whitespace_words(data@),
                    as_ints(res@) == word_differences(ws.subrange(0, i as int), now as int),
                decreases words@.len() - i,
            {
                let ghost upto = ws.subrange(0, i as int);
                let ghost next = ws.subrange(0, i + 1);
                assert(next.drop_last() =~= upto);
                assert(next.last() == words@[i as int]@);
                match parse_i64(words[i].as_str()) {
                    Some(t) => {
                        assert(word_differences(next, now as int) == word_differences(
                            upto,
                            now as int,
                        ).push(now - t));
                        match now.checked_sub(t) {
                            Some(d) => {
                                res.push(d);
                                assert(as_ints(res@) =~= word_differences(next, now as int));
                            },
                            None => {
                                proof {
                                    if fits_i64(word_differences(ws, now as int)) {
                                        lemma_word_differences_prefix(ws, i + 1, now as int);
                                        let k = word_differences(upto, now as int).len() as int;
                                        assert(word_differences(next, now as int)[k] == now - t);
                                    }
                                }
                                return None;
                            },
                        }
                    },
                    None => {},
                }
                i = i + 1;
            }
            assert(ws.subrange(0, ws.len() as int) =~= ws);
            proof {
                lemma_ints_fit(res@);
            }
            Some(res)
        },
    }
}

/// Every vector of `i64` values fits an `i64`.
proof fn lemma_ints_fit(v: Seq<i64>)
    ensures
        fits_i64(as_ints(v)),
{
    assert forall|i: int| 0 <= i < as_ints(v).len() implies i64::MIN <= #[trigger] as_ints(
        v,
    )[i] <= i64::MAX by {
        assert(as_ints(v)[i] == v[i] as int);
    }
}

proof fn lemma_word_differences_prefix(words: Seq<Seq<char>>, k: int, now: int)
    requires
        0 <= k <= words.len(),
        fits_i64(word_differences(words, now)),
    ensures
        fits_i64(word_differences(words.subrange(0, k), now)),
    decreases words.len() - k,
{
    if k < words.len() {
        let longer = words.subrange(0, k + 1);
        lemma_word_differences_prefix(words, k + 1, now);
        assert(longer.drop_last() =~= words.subrange(0, k));
        let shorter = word_differences(words.subrange(0, k), now);
        match parse_i64_spec(longer.last()) {
            Some(t) => {
                assert(word_differences(longer, now) =~= shorter + seq![now - t]);
                lemma_fits_split(shorter, seq![now - t]);
            },
            None => {},
        }
    } else {
        assert(words.subrange(0, k) =~= words);
    }
}

impl Roster {
    /// The measurements for a batch of received messages at time `now`, or
    /// `None` where one of them does not fit an `i64`.
    fn checked_bench(&self, msgs: &Vec<Message>, now: i64) -> (res: Option<Vec<i64>>)
        ensures
            match res {
                Some(v) => fits_i64(bench_differences(self.clients@, msgs@, now as int)) && as_ints(
                    v@,
                ) == bench_differences(self.clients@, msgs@, now as int),
                None => !fits_i64(bench_differences(self.clients@, msgs@, now as int)),
            },
    {
        let mut res: Vec<i64> = Vec::new();
        let mut k: usize = 0;
        while k < msgs.len()
            invariant
                k <= msgs@.len(),
                as_ints(res@) == bench_differences(
                    self.clients@,
                    msgs@.subrange(0, k as int),
                    now as int,
                ),
            decreases msgs@.len() - k,
        {
            let ghost upto = msgs@.subrange(0, k as int);
            let ghost next = msgs@.subrange(0, k + 1);
            let ghost sender = msgs@[k as int].sender@;
            let ghost data = msgs@[k as int].data@;
            assert(next.drop_last() =~= upto);
            let ghost before = res@;
            let mut j: usize = 0;
            while j < self.clients.len()
                invariant
                    k < msgs@.len(),
                    upto == msgs@.subrange(0, k as int),
                    next == msgs@.subrange(0, k + 1),
                    next.drop_last() == upto,
                    sender == msgs@[k as int].sender@,
                    data == msgs@[k as int].data@,
                    j <= self.clients@.len(),
                    as_ints(res@) == as_ints(before) + message_differences(
                        self.clients@.subrange(0, j as int),
                        sender,
                        data,
                        now as int,
                    ),
                decreases self.clients@.len() - j,
            {
                let ghost cs = self.clients@.subrange(0, j + 1);
                assert(cs.drop_last() =~= self.clients@.subrange(0, j as int));
                if self.clients[j].addr == msgs[k].sender {
                    match checked_time_differences(&msgs[k].data, now) {
                        Some(more) => {
                            append_all(&mut res, more);
                        },
                        None => {
                            proof {
                                if fits_i64(bench_differences(self.clients@, msgs@, now as int)) {
                                    assert(next.last() == msgs@[k as int]);
                                    assert(bench_differences(self.clients@, next, now as int)
                                        == bench_differences(self.clients@, upto, now as int)
                                        + message_differences(self.clients@, sender, data, now as int));
                                    lemma_bench_prefix(self.clients@, msgs@, k + 1, now as int);
                                    lemma_fits_split(
                                        bench_differences(self.clients@, upto, now as int),
                                        message_differences(self.clients@, sender, data, now as int),
                                    );
                                    lemma_message_prefix(self.clients@, j + 1, sender, data, now as int);
                                    lemma_fits_split(
                                        message_differences(
                                            self.clients@.subrange(0, j as int),
                                            sender,
                                            data,
                                            now as int,
                                        ),
                                        time_differences_of(data, now as int),
                                    );
                                }
                            }
                            return None;
                        },
                    }
                } else {
                    assert(message_differences(cs, sender, data, now as int) =~= message_differences(
                        self.clients@.subrange(0, j as int),
                        sender,
                        data,
                        now as int,
                    ));
                }
                assert(as_ints(res@) =~= as_ints(before) + message_differences(
                    cs,
                    sender,
                    data,
                    now as int,
                ));
                j = j + 1;
            }
            assert(self.clients@.subrange(0, self.clients@.len() as int) =~= self.clients@);
            assert(as_ints(res@) =~= bench_differences(self.clients@, next, now as int));
            k = k + 1;
        }
        assert(msgs@.subrange(0, msgs@.len() as int) =~= msgs@);
        proof {
            lemma_ints_fit(res@);
        }
        Some(res)
    }

    /// The benchmark measurements for a batch of received messages at time
    /// `now`: for every message, once for each peer whose address it was
    /// sent from, the times since the sending times it carries.
    pub fn check_messages_bench(&self, msgs: &Vec<Message>, now: i64) -> (res: Vec<i64>)
        requires
            fits_i64(bench_differences(self.clients@, msgs@, now as int)),
        ensures
            as_ints(res@) == bench_differences(self.clients@, msgs@, now as int),
    {
        match self.checked_bench(msgs, now) {
            Some(v) => v,
            None => Vec::new(),
        }
    }

    /// The benchmark measurements as `check_messages_bench` gives them, or
    /// `None` where one of them does not fit an `i64`.
    pub fn try_check_messages_bench(&self, msgs: &Vec<Message>, now: i64) -> (res: Option<
        Vec<i64>,
    >)
        ensures
            match res {
                Some(v) => fits_i64(bench_differences(self.clients@, msgs@, now as int)) && as_ints(
                    v@,
                ) == bench_differences(self.clients@, msgs@, now as int),
                None => !fits_i64(bench_differences(self.clients@, msgs@, now as int)),
            },
    {
        if self.checked_bench(msgs, now).is_some() {
            Some(self.check_messages_bench(msgs, now))
        } else {
            None
        }
    }
}

impl Roster {
    /// The benchmark measurements for a batch of received messages, taken
    /// against the wall clock: what `try_check_messages_bench` gives for the
    /// time the clock read.
    pub fn check_messages_bench_now(&self, msgs: &Vec<Message>) -> (res: Option<Vec<i64>>)
        ensures
            exists|now: i64|
                #[trigger] clock_reading(now) && match res {
                    Some(v) => fits_i64(bench_differences(self.clients@, msgs@, now as int))
                        && as_ints(v@) == bench_differences(self.clients@, msgs@, now as int),
                    None => !fits_i64(bench_differences(self.clients@, msgs@, now as int)),
                },
    {
        let now = now_micros() / 1000;
        let res = self.try_check_messages_bench(msgs, now);
        assert(clock_reading(now));
        res
    }
}

/// The text of a benchmark message sent at time `sent`, in milliseconds:
/// the time in decimal, then a space.
pub fn bench_text_of(sent: i64) -> (res: String)
    ensures
        res@ == decimal_of(sent as int) + seq![' '],
{
    let mut text = decimal_text(sent);
    proof {
        reveal_strlit(" ");
    }
    text.append(" ");
    text
}

/// The text of a benchmark message sent now: the wall clock in
/// milliseconds, in decimal, then a space.
pub fn bench_message_text() -> (res: String)
    ensures
        exists|sent: i64| #[trigger] clock_reading(sent) && res@ == decimal_of(sent as int) + seq![' '],
{
    let sent = now_micros() / 1000;
    assert(clock_reading(sent));
    bench_text_of(sent)
}

/// A benchmark message measures how long it was under way: the text sent
/// at `sent`, received at `now`, gives the one measurement `now - sent`.
pub proof fn lemma_bench_text_measures(sent: i64, now: i64)
    ensures
        time_differences_of(decimal_of(sent as int) + seq![' '], now as int) == seq![now - sent],
{
    lemma_decimal_word(sent);
    lemma_decimal_roundtrip(sent);
    let words = seq![decimal_of(sent as int)];
    assert(words.drop_last() =~= Seq::<Seq<char>>::empty());
    assert(word_differences(words.drop_last(), now as int) =~= Seq::<int>::empty());
    assert(Seq::<int>::empty().push(now - sent) =~= seq![now - sent]);
}

/// How long the benchmark waits for the last messages before it measures
/// them, in milliseconds; that wait is taken off each late measurement.
pub const SETTLE_MILLIS: i64 = 10000;

/// The sum of a sequence of measurements.
pub open spec fn sum_of(s: Seq<i64>) -> int
    decreases s.len(),
{
    if s.len() == 0 {
        0
    } else {
        sum_of(s.drop_last()) + s.last()
    }
}

/// Whether every running total of `s`, from the left, fits an `i64`.
pub open spec fn running_sums_fit(s: Seq<i64>) -> bool {
    forall|k: int| 0 <= k <= s.len() ==> i64::MIN <= #[trigger] sum_of(s.take(k)) <= i64::MAX
}

/// The figure the benchmark reports for its measurements: their mean,
/// rounded toward zero, where their sum is positive, and otherwise the sum.
pub open spec fn reported_mean(s: Seq<i64>) -> int {
    if sum_of(s) > 0 {
        sum_of(s) / (s.len() as int)
    } else {
        sum_of(s)
    }
}

/// The sum of a list of measurements.
pub fn total_difference(diffs: &Vec<i64>) -> (res: i64)
    requires
        running_sums_fit(diffs@),
    ensures
        res == sum_of(diffs@),
{
    let mut total: i64 = 0;
    let mut i: usize = 0;
    while i < diffs.len()
        invariant
            i <= diffs@.len(),
            running_sums_fit(diffs@),
            total == sum_of(diffs@.take(i as int)),
        decreases diffs@.len() - i,
    {
        assert(diffs@.take(i + 1).drop_last() =~= diffs@.take(i as int));
        assert(i64::MIN <= sum_of(diffs@.take(i + 1)) <= i64::MAX);
        total = total + diffs[i];
        i = i + 1;
    }
    assert(diffs@.take(diffs@.len() as int) =~= diffs@);
    total
}

/// The figure the benchmark reports for a list of measurements.
pub fn mean_difference(diffs: &Vec<i64>) -> (res: i64)
    requires
        running_sums_fit(diffs@),
        diffs@.len() <= i64::MAX,
    ensures
        res == reported_mean(diffs@),
{
    let total = total_difference(diffs);
    if total > 0 {
        assert(diffs@.len() > 0);
        let n = diffs.len() as i64;
        total / n
    } else {
        total
    }
}

/// The sum of the positive scores among `s`.
pub open spec fn positive_total(s: Seq<i64>) -> int
    decreases s.len(),
{
    if s.len() == 0 {
        0
    } else {
        positive_total(s.drop_last()) + if s.last() > 0 {
            s.last() as int
        } else {
            0
        }
    }
}

/// The overall figure of a benchmark run over several threads: the positive
/// scores of the threads summed, divided by the number of threads, rounded
/// toward zero.
pub fn overall_average(scores: &Vec<i64>) -> (res: i64)
    requires
        0 < scores@.len() <= i64::MAX,
        positive_total(scores@) <= i64::MAX,
    ensures
        res == positive_total(scores@) / (scores@.len() as int),
{
    let mut total: i64 = 0;
    let mut i: usize = 0;
    while i < scores.len()
        invariant
            i <= scores@.len(),
            positive_total(scores@) <= i64::MAX,
            total == positive_total(scores@.take(i as int)),
        decreases scores@.len() - i,
    {
        assert(scores@.take(i + 1).drop_last() =~= scores@.take(i as int));
        proof {
            lemma_positive_total_prefix(scores@, i + 1);
        }
        if scores[i] > 0 {
            total = total + scores[i];
        }
        i = i + 1;
    }
    assert(scores@.take(scores@.len() as int) =~= scores@);
    proof {
        lemma_positive_total_prefix(scores@, scores@.len() as int);
    }
    let n = scores.len() as i64;
    total / n
}

/// A prefix's positive total is never negative, and never more than the
/// whole sequence's.
proof fn lemma_positive_total_prefix(s: Seq<i64>, k: int)
    requires
        0 <= k <= s.len(),
    ensures
        0 <= positive_total(s.take(k)) <= positive_total(s),
    decreases s.len() - k,
{
    if k < s.len() {
        lemma_positive_total_prefix(s, k + 1);
        lemma_positive_total_nonnegative(s.take(k));
        assert(s.take(k + 1).drop_last() =~= s.take(k));
        assert(s.take(k + 1).last() == s[k]);
    } else {
        assert(s.take(k) =~= s);
        lemma_positive_total_nonnegative(s);
    }
}

proof fn lemma_positive_total_nonnegative(s: Seq<i64>)
    ensures
        positive_total(s) >= 0,
    decreases s.len(),
{
    if s.len() > 0 {
        lemma_positive_total_nonnegative(s.drop_last());
    }
}

/// The late measurements with the settling wait taken off each, in order.
pub fn settled_differences(measured: &Vec<i64>) -> (res: Vec<i64>)
    requires
        forall|i: int| 0 <= i < measured@.len() ==> #[trigger] measured@[i] >= i64::MIN + SETTLE_MILLIS,
    ensures
        res@.len() == measured@.len(),
        forall|i: int| 0 <= i < measured@.len() ==> #[trigger] res@[i] == measured@[i] - SETTLE_MILLIS,
{
    let mut res: Vec<i64> = Vec::new();
    let mut i: usize = 0;
    while i < measured.len()
        invariant
            i <= measured@.len(),
            forall|j: int| 0 <= j < measured@.len() ==> #[trigger] measured@[j] >= i64::MIN + SETTLE_MILLIS,
            res@.len() == i,
            forall|j: int| 0 <= j < i ==> #[trigger] res@[j] == measured@[j] - SETTLE_MILLIS,
        decreases measured@.len() - i,
    {
        res.push(measured[i] - SETTLE_MILLIS);
        i = i + 1;
    }
    res
}

proof fn lemma_bench_prefix(clients: Seq<ClientUser>, msgs: Seq<Message>, k: int, now: int)
    requires
        0 <= k <= msgs.len(),
        fits_i64(bench_differences(clients, msgs, now)),
    ensures
        fits_i64(bench_differences(clients, msgs.subrange(0, k), now)),
    decreases msgs.len() - k,
{
    if k < msgs.len() {
        lemma_bench_prefix(clients, msgs, k + 1, now);
        let longer = msgs.subrange(0, k + 1);
        assert(longer.drop_last() =~= msgs.subrange(0, k));
        lemma_fits_split(
            bench_differences(clients, msgs.subrange(0, k), now),
            message_differences(clients, longer.last().sender@, longer.last().data@, now),
        );
    } else {
        assert(msgs.subrange(0, k) =~= msgs);
    }
}

proof fn lemma_message_prefix(
    clients: Seq<ClientUser>,
    k: int,
    sender: Seq<char>,
    data: Seq<char>,
    now: int,
)
    requires
        0 <= k <= clients.len(),
        fits_i64(message_differences(clients, sender, data, now)),
    ensures
        fits_i64(message_differences(clients.subrange(0, k), sender, data, now)),
    decreases clients.len() - k,
{
    if k < clients.len() {
        lemma_message_prefix(clients, k + 1, sender, data, now);
        let longer = clients.subrange(0, k + 1);
        assert(longer.drop_last() =~= clients.subrange(0, k));
        lemma_fits_split(
            message_differences(clients.subrange(0, k), sender, data, now),
            if longer.last().addr@ == sender {
                time_differences_of(data, now)
            } else {
                Seq::empty()
            },
        );
    } else {
        assert(clients.subrange(0, k) =~= clients);
    }
}

} // verus!
