//! The text that the message list shows for one message of the event queue:
//! its heading (number, kind, author) and the lines of its body.
use vstd::prelude::*;

use crate::forms::joined;
use crate::proto::{EqHistoryMessage, EqHistoryModel, Message, MessageModel, Verification};
use crate::screens::verdict_of;
use crate::text::{int_digits, push_i64};

verus! {

/// The short Russian name of the kind of message `m`.
pub open spec fn kind_name(m: MessageModel) -> Seq<char> {
    match m {
        MessageModel::VoteMessage(_) => "Оценка"@,
        MessageModel::VerifyMessage(_) => "Подтверждение оценки"@,
        MessageModel::FixVoting(_) => "Закрытие голосования за участника"@,
        MessageModel::TryNext(_) => "Переход к следеющему участнику"@,
        MessageModel::Block(_) => "Перевод соревнования в режим ожидания"@,
        MessageModel::SetActiveAction(_) => "Обновление активного выступления"@,
        MessageModel::ClearQueueAction(_) => "Очистка активного выступления"@,
        MessageModel::FinesSetup(_) => "Сбавки"@,
    }
}

/// The word for the verdict with wire number `code`.
pub open spec fn verdict_word(code: i32) -> Seq<char> {
    match verdict_of(code) {
        Verification::Block => "Отказано"@,
        Verification::Approve => "Принято"@,
        Verification::NotChecked => "Ожидает проверки"@,
    }
}

/// A list of integers as `Debug` writes it: `[a, b, c]`.
pub open spec fn int_list_text(xs: Seq<i32>) -> Seq<char> {
    "["@ + joined(xs.map_values(|x: i32| int_digits(x as int)), ", "@) + "]"@
}

/// The lines of the body of message `m`; queues are numbered from one.
pub open spec fn body_lines(m: MessageModel) -> Seq<Seq<char>> {
    match m {
        MessageModel::FinesSetup((q, a, fines)) => seq![
            "очередь: "@ + int_digits(q + 1) + ";"@,
            "выступление: "@ + int_digits(a as int) + ";"@,
            "сбавки: "@ + int_list_text(fines) + ";"@,
        ],
        MessageModel::VoteMessage(v) => seq![
            "очередь: "@ + int_digits(v.queue_id + 1) + ";"@,
            "выступление: "@ + int_digits(v.action_id as int) + ";"@,
            "характеристика: "@ + v.mark_type + ";"@,
            "оценка: "@ + int_digits(v.mark as int),
        ],
        MessageModel::VerifyMessage(v) => seq![
            "Подтверждение для: #"@ + int_digits(v.target_message_id as int) + ";"@,
            "Вердикт: "@ + verdict_word(v.verdict) + ";"@,
        ],
        MessageModel::FixVoting(f) => seq![
            "очередь: "@ + int_digits(f.queue_id + 1) + ";"@,
            "Вердикт: "@ + verdict_word(f.verdict) + ";"@,
        ],
        MessageModel::TryNext(t) => seq!["очередь: "@ + int_digits(t.queue_id + 1) + ";"@],
        MessageModel::Block(_) => seq!["События приостановлены администратором"@],
        MessageModel::SetActiveAction(_) => seq!["ViewUpdate"@],
        MessageModel::ClearQueueAction(_) => seq!["Clear"@],
    }
}

/// The queue that message `m` names, where it names one.
pub open spec fn named_queue(m: MessageModel) -> Option<i32> {
    match m {
        MessageModel::FinesSetup((q, _, _)) => Some(q),
        MessageModel::VoteMessage(v) => Some(v.queue_id),
        MessageModel::FixVoting(f) => Some(f.queue_id),
        MessageModel::TryNext(t) => Some(t.queue_id),
        _ => None,
    }
}

/// The message `h` can be shown: it holds a message, with a payload and an
/// author, and the queue it names (if any) can be numbered from one.
pub open spec fn showable(h: EqHistoryModel) -> bool {
    &&& h.message matches Some(em)
    &&& em.message is Some
    &&& em.author is Some
    &&& (named_queue(em.message.unwrap()) matches Some(q) ==> q < i32::MAX)
}

/// The text of message `h`: the heading (its number after `#`, the name of
/// its kind, and ` от: ` with its author's login), then the body lines.
pub open spec fn shown_lines(h: EqHistoryModel) -> Seq<Seq<char>> {
    let em = h.message.unwrap();
    let m = em.message.unwrap();
    seq!["#"@ + int_digits(h.message_id as int), kind_name(m), " от: "@ + em.author.unwrap().login] + body_lines(m)
}

/// `prefix`, the decimal `n`, then `suffix`.
fn number_line(prefix: &str, n: i64, suffix: &str) -> (r: String)
    ensures
        r@ == prefix@ + int_digits(n as int) + suffix@,
{
    let mut s = String::new();
    s.append(prefix);
    push_i64(&mut s, n);
    s.append(suffix);
    s
}

/// `prefix`, then the decimal `n`.
fn prefixed_number(prefix: &str, n: i64) -> (r: String)
    ensures
        r@ == prefix@ + int_digits(n as int),
{
    let mut s = String::new();
    s.append(prefix);
    push_i64(&mut s, n);
    s
}

/// `prefix`, then `rest`.
fn prefixed_text(prefix: &str, rest: &str) -> (r: String)
    ensures
        r@ == prefix@ + rest@,
{
    let mut s = String::new();
    s.append(prefix);
    s.append(rest);
    s
}

/// `prefix`, `middle`, then `suffix`.
fn text_line(prefix: &str, middle: &str, suffix: &str) -> (r: String)
    ensures
        r@ == prefix@ + middle@ + suffix@,
{
    let mut s = String::new();
    s.append(prefix);
    s.append(middle);
    s.append(suffix);
    s
}

proof fn lemma_joined_push(parts: Seq<Seq<char>>, sep: Seq<char>, k: int)
    requires
        0 <= k < parts.len(),
    ensures
        joined(parts.subrange(0, k + 1), sep) == (if k == 0 {
            parts[0]
        } else {
            joined(parts.subrange(0, k), sep) + sep + parts[k]
        }),
{
    let s = parts.subrange(0, k + 1);
    assert(s.drop_last() =~= parts.subrange(0, k));
    assert(s.last() == parts[k]);
    if k == 0 {
        assert(s.len() == 1);
    }
}

/// `xs` as `Debug` writes a list of integers.
fn int_list_string(xs: &Vec<i32>) -> (r: String)
    ensures
        r@ == int_list_text(xs@),
{
    let ghost parts = xs@.map_values(|x: i32| int_digits(x as int));
    let mut s = String::new();
    s.append("[");
    let ghost head = s@;
    assert(parts.subrange(0, 0) =~= Seq::<Seq<char>>::empty());
    let mut i: usize = 0;
    while i < xs.len()
        invariant
            i <= xs@.len(),
            parts == xs@.map_values(|x: i32| int_digits(x as int)),
            head == "["@,
            s@ == head + joined(parts.subrange(0, i as int), ", "@),
        decreases xs@.len() - i,
    {
        let ghost before = s@;
        if i > 0 {
            s.append(", ");
        }
        push_i64(&mut s, xs[i] as i64);
        proof {
            lemma_joined_push(parts, ", "@, i as int);
            assert(parts[i as int] == int_digits(xs@[i as int] as int));
            if i == 0 {
                assert(s@ =~= head + joined(parts.subrange(0, 1), ", "@));
            } else {
                assert(s@ =~= head + joined(parts.subrange(0, i as int + 1), ", "@));
            }
        }
        i = i + 1;
    }
    assert(parts.subrange(0, xs@.len() as int) =~= parts);
    s.append("]");
    s
}

/// The word for the verdict with wire number `code`.
fn verdict_text(code: i32) -> (r: &'static str)
    ensures
        r@ == verdict_word(code),
{
    match Verification::from_code_or_default(code) {
        Verification::Block => "Отказано",
        Verification::Approve => "Принято",
        Verification::NotChecked => "Ожидает проверки",
    }
}

/// The lines of the body of message `m`.
fn message_body(m: &Message) -> (r: Vec<String>)
    requires
        named_queue(m.deep_view()) matches Some(q) ==> q < i32::MAX,
    ensures
        r.deep_view() == body_lines(m.deep_view()),
{
    let mut out: Vec<String> = Vec::new();
    match m {
        Message::FinesSetup(f) => {
            out.push(number_line("очередь: ", f.queue_id as i64 + 1, ";"));
            out.push(number_line("выступление: ", f.action_id as i64, ";"));
            let list = int_list_string(&f.fines);
            out.push(text_line("сбавки: ", list.as_str(), ";"));
        },
        Message::VoteMessage(v) => {
            out.push(number_line("очередь: ", v.queue_id as i64 + 1, ";"));
            out.push(number_line("выступление: ", v.action_id as i64, ";"));
            out.push(text_line("характеристика: ", v.mark_type.as_str(), ";"));
            out.push(prefixed_number("оценка: ", v.mark as i64));
        },
        Message::VerifyMessage(v) => {
            out.push(number_line("Подтверждение для: #", v.target_message_id as i64, ";"));
            out.push(text_line("Вердикт: ", verdict_text(v.verdict), ";"));
        },
        Message::FixVoting(f) => {
            out.push(number_line("очередь: ", f.queue_id as i64 + 1, ";"));
            out.push(text_line("Вердикт: ", verdict_text(f.verdict), ";"));
        },
        Message::TryNext(t) => {
            out.push(number_line("очередь: ", t.queue_id as i64 + 1, ";"));
        },
        Message::Block(_) => {
            out.push("События приостановлены администратором".to_owned());
        },
        Message::SetActiveAction(_) => {
            out.push("ViewUpdate".to_owned());
        },
        Message::ClearQueueAction(_) => {
            out.push("Clear".to_owned());
        },
    }
    assert(out.deep_view() =~= body_lines(m.deep_view()));
    out
}

/// The text that the message list shows for `h`: the heading, then the body
/// lines (`shown_lines`).
pub fn message_text(h: &EqHistoryMessage) -> (r: Vec<String>)
    requires
        showable(h.deep_view()),
    ensures
        r.deep_view() == shown_lines(h.deep_view()),
{
    let em = h.message.as_ref().unwrap();
    let m = em.message.as_ref().unwrap();
    let author = em.author.as_ref().unwrap();
    let mut out: Vec<String> = Vec::new();
    out.push(prefixed_number("#", h.message_id as i64));
    out.push(m.represent().to_owned());
    out.push(prefixed_text(" от: ", author.login.as_str()));
    let body = message_body(m);
    let mut i: usize = 0;
    while i < body.len()
        invariant
            i <= body@.len(),
            out.deep_view() =~= shown_lines(h.deep_view()).subrange(0, 3 + i as int),
            body.deep_view() == body_lines(m.deep_view()),
            m.deep_view() == h.deep_view().message.unwrap().message.unwrap(),
        decreases body@.len() - i,
    {
        let line = body[i].clone();
        let ghost before = out.deep_view();
        out.push(line);
        proof {
            let all = shown_lines(h.deep_view());
            assert(all[3 + i as int] == body.deep_view()[i as int]);
            assert(out.deep_view() =~= before.push(body.deep_view()[i as int]));
            assert(all.subrange(0, 3 + i as int + 1) =~= all.subrange(0, 3 + i as int).push(all[3 + i as int]));
        }
        i = i + 1;
    }
    assert(shown_lines(h.deep_view()).subrange(0, 3 + body@.len() as int) =~= shown_lines(h.deep_view()));
    out
}

} // verus!
