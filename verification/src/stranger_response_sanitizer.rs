//! Post-processing of replies that go to a sender who is not the owner.
//!
//! A reply may carry status lines about owner-side operations ("Risposta inviata", "Ho
//! notificato il Signore in privato"). Such a line is dropped before the reply leaves.

use vstd::prelude::*;
use vstd::utf8::*;

use crate::text;

verus! {

/// The beginnings that mark a line as a status leak, in lowercase.
pub open spec fn leak_line_prefixes_spec() -> Seq<&'static str> {
    seq![
        "risposta inviata",
        "messaggio inviato",
        "il messaggio è stato recapitato",
        "il messaggio e' stato recapitato",
        "il messaggio è stato consegnato",
        "il messaggio e' stato consegnato",
        "il contatto è stato risposto",
        "il contatto e' stato risposto",
        "il signore è stato notificato",
        "il signore e' stato notificato",
        "ho notificato il signore",
        "ho inoltrato la richiesta",
        "ho inoltrato al signore",
        "ho inoltrato la tua richiesta",
        "ho girato la richiesta",
        "ho girato al signore",
        "ho trasmesso al signore",
        "ho comunicato al signore",
        "ho passato al signore",
        "ho avvisato il signore",
        "ho consegnato il messaggio",
        "ho recapitato",
        "ho fatto sapere al signore",
        "ho risposto al contatto",
        "ho risposto allo stranger",
        "conferma invio",
        "conferma inviata",
        "invio completato",
        "inoltro completato",
        "risposta consegnata",
        "ho già inoltrato",
        "ho gia' inoltrato",
        "l'ho fatto presente",
    ]
}

/// The beginnings that mark a line as a status leak, in lowercase.
pub fn leak_line_prefixes() -> (r: Vec<&'static str>)
    ensures
        r@ == leak_line_prefixes_spec(),
{
    vec![
        "risposta inviata",
        "messaggio inviato",
        "il messaggio è stato recapitato",
        "il messaggio e' stato recapitato",
        "il messaggio è stato consegnato",
        "il messaggio e' stato consegnato",
        "il contatto è stato risposto",
        "il contatto e' stato risposto",
        "il signore è stato notificato",
        "il signore e' stato notificato",
        "ho notificato il signore",
        "ho inoltrato la richiesta",
        "ho inoltrato al signore",
        "ho inoltrato la tua richiesta",
        "ho girato la richiesta",
        "ho girato al signore",
        "ho trasmesso al signore",
        "ho comunicato al signore",
        "ho passato al signore",
        "ho avvisato il signore",
        "ho consegnato il messaggio",
        "ho recapitato",
        "ho fatto sapere al signore",
        "ho risposto al contatto",
        "ho risposto allo stranger",
        "conferma invio",
        "conferma inviata",
        "invio completato",
        "inoltro completato",
        "risposta consegnata",
        "ho già inoltrato",
        "ho gia' inoltrato",
        "l'ho fatto presente",
    ]
}

/// What is sent when nothing of a reply is left: a neutral acknowledgement rather than an empty
/// text.
pub const NEUTRAL_FALLBACK: &'static str = "Va bene. 🎩";

/// Whether a line that is already trimmed and lowercased begins with a leak prefix.
pub open spec fn has_leak_prefix_spec(lowered: Seq<char>) -> bool {
    exists|i: int|
        0 <= i < leak_line_prefixes_spec().len() && (
        #[trigger] leak_line_prefixes_spec()[i])@.is_prefix_of(lowered)
}

/// Whether `line`, trimmed and lowercased, begins with a leak prefix.
pub open spec fn leak_line(line: Seq<char>) -> bool {
    let lowered = text::unicode_lowercase(text::trimmed(line));
    lowered.len() > 0 && has_leak_prefix_spec(lowered)
}

/// `leak_line` with ASCII lowercasing: the same thing on an ASCII line.
pub open spec fn ascii_leak_line(line: Seq<char>) -> bool {
    let lowered = text::ascii_lowered(text::trimmed(line));
    lowered.len() > 0 && has_leak_prefix_spec(lowered)
}

/// Whether `line`, trimmed, begins with an ASCII leak prefix up to the case of ASCII letters,
/// whatever follows it.
pub open spec fn begins_like_leak(line: Seq<char>) -> bool {
    exists|i: int|
        0 <= i < leak_line_prefixes_spec().len() && begins_with_ascii(
            text::trimmed(line),
            (#[trigger] leak_line_prefixes_spec()[i])@,
        )
}

/// Whether `s` begins with the ASCII text `prefix` up to the case of ASCII letters.
pub open spec fn begins_with_ascii(s: Seq<char>, prefix: Seq<char>) -> bool {
    &&& prefix.len() > 0
    &&& is_ascii_chars(prefix)
    &&& prefix.len() <= s.len()
    &&& text::ascii_lowered(s.take(prefix.len() as int)) == prefix
}

/// The lines of `lines` that `leak` does not mark, in order.
pub open spec fn kept_lines(lines: Seq<Seq<char>>, leak: Seq<bool>) -> Seq<Seq<char>>
    decreases lines.len(),
{
    if lines.len() == 0 {
        Seq::empty()
    } else {
        let before = kept_lines(lines.drop_last(), leak);
        if leak[lines.len() - 1] {
            before
        } else {
            before.push(lines.last())
        }
    }
}

/// Whether the kept lines of `lines` are empty or white space only.
pub open spec fn left_blank(lines: Seq<Seq<char>>, leak: Seq<bool>) -> bool {
    text::trimmed(text::joined(kept_lines(lines, leak), seq!['\n'])).len() == 0
}

/// The reply that is left of `lines`: the kept lines joined by newlines, or the fallback where
/// that is blank.
pub open spec fn reply_of(lines: Seq<Seq<char>>, leak: Seq<bool>) -> Seq<char> {
    if left_blank(lines, leak) {
        NEUTRAL_FALLBACK@
    } else {
        text::joined(kept_lines(lines, leak), seq!['\n'])
    }
}

/// The verdicts of `leak` on `lines`.
pub open spec fn verdicts(lines: Seq<Seq<char>>, leak: spec_fn(Seq<char>) -> bool) -> Seq<bool> {
    Seq::new(lines.len(), |i: int| leak(lines[i]))
}

/// Whether a reply is answered with the fallback.
pub open spec fn falls_back(reply: Seq<char>, leak: spec_fn(Seq<char>) -> bool) -> bool {
    let lines = text::split_on(reply, '\n');
    left_blank(lines, verdicts(lines, leak))
}

/// What a reply becomes: its lines without those that `leak` marks.
pub open spec fn sanitized(reply: Seq<char>, leak: spec_fn(Seq<char>) -> bool) -> Seq<char> {
    let lines = text::split_on(reply, '\n');
    reply_of(lines, verdicts(lines, leak))
}

/// Whether a line that is already trimmed and lowercased begins with a leak prefix.
pub fn has_leak_prefix(lowered: &str) -> (r: bool)
    ensures
        r == has_leak_prefix_spec(lowered@),
{
    let prefixes = leak_line_prefixes();
    for i in 0..prefixes.len()
        invariant
            prefixes@ == leak_line_prefixes_spec(),
            forall|k: int| 0 <= k < i ==> !(#[trigger] prefixes@[k])@.is_prefix_of(lowered@),
    {
        if text::starts_with(lowered, prefixes[i]) {
            assert(leak_line_prefixes_spec()[i as int]@.is_prefix_of(lowered@));
            return true;
        }
    }
    assert forall|k: int| 0 <= k < leak_line_prefixes_spec().len() implies !(
    #[trigger] leak_line_prefixes_spec()[k])@.is_prefix_of(lowered@) by {
        assert(!prefixes@[k]@.is_prefix_of(lowered@));
    }
    false
}

/// Whether `line`, trimmed and lowercased, begins with a leak prefix.
pub fn is_leak_line(line: &str) -> (r: bool)
    ensures
        r == leak_line(line@),
        is_ascii_chars(line@) ==> r == ascii_leak_line(line@),
        begins_like_leak(line@) ==> r,
{
    let bare = text::trim(line);
    let lowered = text::to_lowercase(bare.as_str());
    proof {
        if begins_like_leak(line@) {
            let i = choose|i: int|
                0 <= i < leak_line_prefixes_spec().len() && begins_with_ascii(
                    text::trimmed(line@),
                    (#[trigger] leak_line_prefixes_spec()[i])@,
                );
            let prefix = leak_line_prefixes_spec()[i]@;
            let k = prefix.len() as int;
            let head = bare@.take(k);
            assert forall|j: int| 0 <= j < head.len() implies '\0' <= #[trigger] head[j] <= '\u{7f}' by {
                assert(text::ascii_lowered(head)[j] == prefix[j]);
                assert(prefix[j] <= '\u{7f}');
            }
            assert(is_ascii_chars(bare@.take(k)));
            assert(prefix.is_prefix_of(lowered@));
            assert(leak_line_prefixes_spec()[i]@.is_prefix_of(lowered@));
        }
        if is_ascii_chars(line@) {
            text::lemma_trimmed_ascii(line@);
        }
    }
    if lowered.as_str().is_empty() {
        return false;
    }
    has_leak_prefix(lowered.as_str())
}

/// No leak prefix begins with the letter that the fallback begins with.
proof fn lemma_prefixes_do_not_begin_like_fallback(lowered: Seq<char>)
    requires
        lowered.len() > 0,
        lowered[0] == 'v',
    ensures
        !has_leak_prefix_spec(lowered),
{
    let all = leak_line_prefixes_spec();
    reveal_strlit("risposta inviata");
    reveal_strlit("messaggio inviato");
    reveal_strlit("il messaggio è stato recapitato");
    reveal_strlit("il messaggio e' stato recapitato");
    reveal_strlit("il messaggio è stato consegnato");
    reveal_strlit("il messaggio e' stato consegnato");
    reveal_strlit("il contatto è stato risposto");
    reveal_strlit("il contatto e' stato risposto");
    reveal_strlit("il signore è stato notificato");
    reveal_strlit("il signore e' stato notificato");
    reveal_strlit("ho notificato il signore");
    reveal_strlit("ho inoltrato la richiesta");
    reveal_strlit("ho inoltrato al signore");
    reveal_strlit("ho inoltrato la tua richiesta");
    reveal_strlit("ho girato la richiesta");
    reveal_strlit("ho girato al signore");
    reveal_strlit("ho trasmesso al signore");
    reveal_strlit("ho comunicato al signore");
    reveal_strlit("ho passato al signore");
    reveal_strlit("ho avvisato il signore");
    reveal_strlit("ho consegnato il messaggio");
    reveal_strlit("ho recapitato");
    reveal_strlit("ho fatto sapere al signore");
    reveal_strlit("ho risposto al contatto");
    reveal_strlit("ho risposto allo stranger");
    reveal_strlit("conferma invio");
    reveal_strlit("conferma inviata");
    reveal_strlit("invio completato");
    reveal_strlit("inoltro completato");
    reveal_strlit("risposta consegnata");
    reveal_strlit("ho già inoltrato");
    reveal_strlit("ho gia' inoltrato");
    reveal_strlit("l'ho fatto presente");
    assert(all[0]@[0] != 'v' && all[0]@.len() > 0);
    assert(all[1]@[0] != 'v' && all[1]@.len() > 0);
    assert(all[2]@[0] != 'v' && all[2]@.len() > 0);
    assert(all[3]@[0] != 'v' && all[3]@.len() > 0);
    assert(all[4]@[0] != 'v' && all[4]@.len() > 0);
    assert(all[5]@[0] != 'v' && all[5]@.len() > 0);
    assert(all[6]@[0] != 'v' && all[6]@.len() > 0);
    assert(all[7]@[0] != 'v' && all[7]@.len() > 0);
    assert(all[8]@[0] != 'v' && all[8]@.len() > 0);
    assert(all[9]@[0] != 'v' && all[9]@.len() > 0);
    assert(all[10]@[0] != 'v' && all[10]@.len() > 0);
    assert(all[11]@[0] != 'v' && all[11]@.len() > 0);
    assert(all[12]@[0] != 'v' && all[12]@.len() > 0);
    assert(all[13]@[0] != 'v' && all[13]@.len() > 0);
    assert(all[14]@[0] != 'v' && all[14]@.len() > 0);
    assert(all[15]@[0] != 'v' && all[15]@.len() > 0);
    assert(all[16]@[0] != 'v' && all[16]@.len() > 0);
    assert(all[17]@[0] != 'v' && all[17]@.len() > 0);
    assert(all[18]@[0] != 'v' && all[18]@.len() > 0);
    assert(all[19]@[0] != 'v' && all[19]@.len() > 0);
    assert(all[20]@[0] != 'v' && all[20]@.len() > 0);
    assert(all[21]@[0] != 'v' && all[21]@.len() > 0);
    assert(all[22]@[0] != 'v' && all[22]@.len() > 0);
    assert(all[23]@[0] != 'v' && all[23]@.len() > 0);
    assert(all[24]@[0] != 'v' && all[24]@.len() > 0);
    assert(all[25]@[0] != 'v' && all[25]@.len() > 0);
    assert(all[26]@[0] != 'v' && all[26]@.len() > 0);
    assert(all[27]@[0] != 'v' && all[27]@.len() > 0);
    assert(all[28]@[0] != 'v' && all[28]@.len() > 0);
    assert(all[29]@[0] != 'v' && all[29]@.len() > 0);
    assert(all[30]@[0] != 'v' && all[30]@.len() > 0);
    assert(all[31]@[0] != 'v' && all[31]@.len() > 0);
    assert(all[32]@[0] != 'v' && all[32]@.len() > 0);
    assert forall|i: int| 0 <= i < all.len() implies !(#[trigger] all[i])@.is_prefix_of(
        lowered,
    ) by {
        assert(all[i]@.len() > 0 && all[i]@[0] != 'v');
        if all[i]@.is_prefix_of(lowered) {
            assert(lowered.subrange(0, all[i]@.len() as int)[0] == all[i]@[0]);
        }
    }
}

/// The fallback, which is no leak line itself.
fn neutral_fallback() -> (r: String)
    ensures
        r@ == NEUTRAL_FALLBACK@,
        !leak_line(r@),
{
    let bare = text::trim(NEUTRAL_FALLBACK);
    let lowered = text::to_lowercase(bare.as_str());
    proof {
        reveal_strlit("Va bene. 🎩");
        let fallback = NEUTRAL_FALLBACK@;
        assert(fallback.first() == 'V' && fallback.last() == '🎩');
        assert(bare@ == fallback);
        assert(is_ascii_chars(bare@.take(1)));
        assert(text::ascii_lowered(bare@.take(1))[0] == 'v');
        assert(lowered@.subrange(0, 1)[0] == 'v');
        lemma_prefixes_do_not_begin_like_fallback(lowered@);
    }
    NEUTRAL_FALLBACK.to_owned()
}

/// Joins the lines that are not marked and falls back where nothing readable is left.
pub fn assemble_reply(lines: &Vec<String>, leak: &Vec<bool>) -> (r: String)
    requires
        lines@.len() == leak@.len(),
    ensures
        r@ == reply_of(text::texts(lines@), leak@),
        left_blank(text::texts(lines@), leak@) ==> !leak_line(r@),
{
    let mut kept: Vec<String> = Vec::new();
    for i in 0..lines.len()
        invariant
            lines@.len() == leak@.len(),
            text::texts(kept@) == kept_lines(text::texts(lines@).take(i as int), leak@),
    {
        let ghost next = text::texts(lines@).take(i + 1);
        assert(next.drop_last() == text::texts(lines@).take(i as int));
        let ghost before = kept@;
        if !leak[i] {
            kept.push(lines[i].clone());
            assert(text::texts(kept@) == text::texts(before).push(next.last()));
        }
    }
    assert(text::texts(lines@).take(lines@.len() as int) == text::texts(lines@));
    let reply = text::join(&kept, "\n");
    proof {
        reveal_strlit("\n");
        assert("\n"@ == seq!['\n']);
    }
    if text::trim(reply.as_str()).as_str().is_empty() {
        neutral_fallback()
    } else {
        reply
    }
}

/// Cleans a reply that is about to go to a sender who is not the owner.
///
/// The reply is split on newlines; a line whose trimmed, lowercased text begins with a leak
/// prefix is dropped; the rest is joined again. Where that leaves nothing but white space, the
/// neutral fallback is sent. Sentences inside a line are not looked at.
pub fn sanitize_stranger_response(reply: &str) -> (r: String)
    ensures
        r@ == sanitized(reply@, |line: Seq<char>| leak_line(line)),
        is_ascii_chars(reply@) ==> r@ == sanitized(reply@, |line: Seq<char>| ascii_leak_line(line)),
        text::trimmed(r@).len() > 0,
        forall|i: int|
            0 <= i < text::split_on(r@, '\n').len() ==> !leak_line(
                #[trigger] text::split_on(r@, '\n')[i],
            ),
        sanitized(r@, |line: Seq<char>| leak_line(line)) == r@,
{
    let lines = text::split(reply, '\n');
    let mut leak: Vec<bool> = Vec::new();
    for i in 0..lines.len()
        invariant
            text::texts(lines@) == text::split_on(reply@, '\n'),
            leak@.len() == i,
            forall|k: int| 0 <= k < i ==> leak@[k] == leak_line(#[trigger] text::texts(lines@)[k]),
            is_ascii_chars(reply@) ==> forall|k: int|
                0 <= k < i ==> leak@[k] == ascii_leak_line(#[trigger] text::texts(lines@)[k]),
    {
        proof {
            if is_ascii_chars(reply@) {
                text::lemma_split_ascii(reply@, '\n');
                assert(is_ascii_chars(text::texts(lines@)[i as int]));
            }
        }
        leak.push(is_leak_line(lines[i].as_str()));
    }
    assert(leak@ == verdicts(text::split_on(reply@, '\n'), |line: Seq<char>| leak_line(line)));
    assert(is_ascii_chars(reply@) ==> leak@ == verdicts(
        text::split_on(reply@, '\n'),
        |line: Seq<char>| ascii_leak_line(line),
    ));
    let sent = assemble_reply(&lines, &leak);
    proof {
        let mark = |line: Seq<char>| leak_line(line);
        assert(falls_back(reply@, mark) ==> !mark(NEUTRAL_FALLBACK@));
        law_reply_is_never_blank(reply@, mark);
        law_no_leak_line_is_sent(reply@, mark);
        law_cleaning_twice_is_cleaning_once(reply@, mark);
        assert forall|i: int| 0 <= i < text::split_on(sent@, '\n').len() implies !leak_line(
            #[trigger] text::split_on(sent@, '\n')[i],
        ) by {
            assert(!mark(text::split_on(sent@, '\n')[i]));
        }
    }
    sent
}

// ---------------------------------------------------------------------------
// What holds of every reply
// ---------------------------------------------------------------------------

/// Every kept line is one of the lines, and one that is not marked.
proof fn lemma_kept_lines(lines: Seq<Seq<char>>, leak: Seq<bool>)
    ensures
        kept_lines(lines, leak).len() <= lines.len(),
        forall|i: int|
            0 <= i < kept_lines(lines, leak).len() ==> exists|j: int|
                0 <= j < lines.len() && !leak[j] && lines[j] == #[trigger] kept_lines(
                    lines,
                    leak,
                )[i],
    decreases lines.len(),
{
    if lines.len() > 0 {
        let front = lines.drop_last();
        let kept = kept_lines(lines, leak);
        let before = kept_lines(front, leak);
        lemma_kept_lines(front, leak);
        assert forall|i: int| 0 <= i < kept.len() implies exists|j: int|
            0 <= j < lines.len() && !leak[j] && lines[j] == #[trigger] kept[i] by {
            if i < before.len() {
                assert(kept[i] == before[i]);
                let j = choose|j: int|
                    0 <= j < front.len() && !leak[j] && front[j] == before[i];
                assert(lines[j] == kept[i]);
            } else {
                assert(lines[lines.len() - 1] == kept[i]);
            }
        }
    }
}

/// Where no line is marked, all lines are kept.
proof fn lemma_kept_all(lines: Seq<Seq<char>>, leak: Seq<bool>)
    requires
        forall|i: int| 0 <= i < lines.len() ==> !leak[i],
    ensures
        kept_lines(lines, leak) == lines,
    decreases lines.len(),
{
    if lines.len() > 0 {
        lemma_kept_all(lines.drop_last(), leak);
        assert(lines.drop_last().push(lines.last()) == lines);
    }
}

/// Where every line is marked, none is kept.
proof fn lemma_kept_none(lines: Seq<Seq<char>>, leak: Seq<bool>)
    requires
        forall|i: int| 0 <= i < lines.len() ==> leak[i],
    ensures
        kept_lines(lines, leak).len() == 0,
    decreases lines.len(),
{
    if lines.len() > 0 {
        lemma_kept_none(lines.drop_last(), leak);
    }
}

/// What is sent is never empty nor white space only.
pub proof fn law_reply_is_never_blank(reply: Seq<char>, leak: spec_fn(Seq<char>) -> bool)
    ensures
        text::trimmed(sanitized(reply, leak)).len() > 0,
{
    reveal_strlit("Va bene. 🎩");
}

/// No line of what is sent is a leak line; where the fallback is sent, it must be none.
pub proof fn law_no_leak_line_is_sent(reply: Seq<char>, leak: spec_fn(Seq<char>) -> bool)
    requires
        falls_back(reply, leak) ==> !leak(NEUTRAL_FALLBACK@),
    ensures
        forall|i: int|
            0 <= i < text::split_on(sanitized(reply, leak), '\n').len() ==> !leak(
                #[trigger] text::split_on(sanitized(reply, leak), '\n')[i],
            ),
{
    if !falls_back(reply, leak) {
        lemma_sent_lines(reply, leak);
        let lines = text::split_on(reply, '\n');
        let marks = verdicts(lines, leak);
        lemma_kept_lines(lines, marks);
    } else {
        lemma_fallback_is_one_line();
    }
}

/// The fallback is a single line.
proof fn lemma_fallback_is_one_line()
    ensures
        text::split_on(NEUTRAL_FALLBACK@, '\n') == seq![NEUTRAL_FALLBACK@],
{
    reveal_strlit("Va bene. 🎩");
    let single = seq![NEUTRAL_FALLBACK@];
    assert(!NEUTRAL_FALLBACK@.contains('\n'));
    text::lemma_joined_split(single, '\n');
    assert(text::joined(single, seq!['\n']) == NEUTRAL_FALLBACK@);
}

/// The lines of what is sent are the kept lines, where it is not the fallback.
proof fn lemma_sent_lines(reply: Seq<char>, leak: spec_fn(Seq<char>) -> bool)
    requires
        !falls_back(reply, leak),
    ensures
        ({
            let lines = text::split_on(reply, '\n');
            text::split_on(sanitized(reply, leak), '\n') == kept_lines(lines, verdicts(lines, leak))
        }),
{
    let lines = text::split_on(reply, '\n');
    let marks = verdicts(lines, leak);
    let kept = kept_lines(lines, marks);
    lemma_kept_lines(lines, marks);
    text::lemma_split_joined(reply, '\n');
    assert(kept.len() >= 1);
    assert forall|i: int| 0 <= i < kept.len() implies !(#[trigger] kept[i]).contains('\n') by {
        let j = choose|j: int| 0 <= j < lines.len() && !marks[j] && lines[j] == kept[i];
        assert(!lines[j].contains('\n'));
    }
    text::lemma_joined_split(kept, '\n');
}

/// Cleaning a reply a second time changes nothing; where the fallback is sent, it must be no leak
/// line.
pub proof fn law_cleaning_twice_is_cleaning_once(
    reply: Seq<char>,
    leak: spec_fn(Seq<char>) -> bool,
)
    requires
        falls_back(reply, leak) ==> !leak(NEUTRAL_FALLBACK@),
    ensures
        sanitized(sanitized(reply, leak), leak) == sanitized(reply, leak),
{
    law_reply_is_never_blank(reply, leak);
    law_no_leak_line_is_sent(reply, leak);
    law_clean_reply_is_unchanged(sanitized(reply, leak), leak);
}

/// A reply without leak lines that is not blank is sent as it stands, blank lines and trailing
/// newline included.
pub proof fn law_clean_reply_is_unchanged(reply: Seq<char>, leak: spec_fn(Seq<char>) -> bool)
    requires
        text::trimmed(reply).len() > 0,
        forall|i: int|
            0 <= i < text::split_on(reply, '\n').len() ==> !leak(
                #[trigger] text::split_on(reply, '\n')[i],
            ),
    ensures
        sanitized(reply, leak) == reply,
{
    let lines = text::split_on(reply, '\n');
    let marks = verdicts(lines, leak);
    assert forall|i: int| 0 <= i < lines.len() implies !marks[i] by {
        assert(!leak(lines[i]));
    }
    lemma_kept_all(lines, marks);
    text::lemma_split_joined(reply, '\n');
}

/// A reply of leak lines only is answered with the fallback.
pub proof fn law_only_leak_lines_fall_back(reply: Seq<char>, leak: spec_fn(Seq<char>) -> bool)
    requires
        forall|i: int|
            0 <= i < text::split_on(reply, '\n').len() ==> leak(
                #[trigger] text::split_on(reply, '\n')[i],
            ),
    ensures
        sanitized(reply, leak) == NEUTRAL_FALLBACK@,
{
    let lines = text::split_on(reply, '\n');
    let marks = verdicts(lines, leak);
    assert forall|i: int| 0 <= i < lines.len() implies marks[i] by {
        assert(leak(lines[i]));
    }
    lemma_kept_none(lines, marks);
}

/// No leak prefix is empty.
proof fn lemma_prefixes_are_not_empty()
    ensures
        forall|i: int|
            0 <= i < leak_line_prefixes_spec().len() ==> (
            #[trigger] leak_line_prefixes_spec()[i])@.len() > 0,
{
    let all = leak_line_prefixes_spec();
    reveal_strlit("risposta inviata");
    reveal_strlit("messaggio inviato");
    reveal_strlit("il messaggio è stato recapitato");
    reveal_strlit("il messaggio e' stato recapitato");
    reveal_strlit("il messaggio è stato consegnato");
    reveal_strlit("il messaggio e' stato consegnato");
    reveal_strlit("il contatto è stato risposto");
    reveal_strlit("il contatto e' stato risposto");
    reveal_strlit("il signore è stato notificato");
    reveal_strlit("il signore e' stato notificato");
    reveal_strlit("ho notificato il signore");
    reveal_strlit("ho inoltrato la richiesta");
    reveal_strlit("ho inoltrato al signore");
    reveal_strlit("ho inoltrato la tua richiesta");
    reveal_strlit("ho girato la richiesta");
    reveal_strlit("ho girato al signore");
    reveal_strlit("ho trasmesso al signore");
    reveal_strlit("ho comunicato al signore");
    reveal_strlit("ho passato al signore");
    reveal_strlit("ho avvisato il signore");
    reveal_strlit("ho consegnato il messaggio");
    reveal_strlit("ho recapitato");
    reveal_strlit("ho fatto sapere al signore");
    reveal_strlit("ho risposto al contatto");
    reveal_strlit("ho risposto allo stranger");
    reveal_strlit("conferma invio");
    reveal_strlit("conferma inviata");
    reveal_strlit("invio completato");
    reveal_strlit("inoltro completato");
    reveal_strlit("risposta consegnata");
    reveal_strlit("ho già inoltrato");
    reveal_strlit("ho gia' inoltrato");
    reveal_strlit("l'ho fatto presente");
    assert(all[0]@.len() > 0);
    assert(all[1]@.len() > 0);
    assert(all[2]@.len() > 0);
    assert(all[3]@.len() > 0);
    assert(all[4]@.len() > 0);
    assert(all[5]@.len() > 0);
    assert(all[6]@.len() > 0);
    assert(all[7]@.len() > 0);
    assert(all[8]@.len() > 0);
    assert(all[9]@.len() > 0);
    assert(all[10]@.len() > 0);
    assert(all[11]@.len() > 0);
    assert(all[12]@.len() > 0);
    assert(all[13]@.len() > 0);
    assert(all[14]@.len() > 0);
    assert(all[15]@.len() > 0);
    assert(all[16]@.len() > 0);
    assert(all[17]@.len() > 0);
    assert(all[18]@.len() > 0);
    assert(all[19]@.len() > 0);
    assert(all[20]@.len() > 0);
    assert(all[21]@.len() > 0);
    assert(all[22]@.len() > 0);
    assert(all[23]@.len() > 0);
    assert(all[24]@.len() > 0);
    assert(all[25]@.len() > 0);
    assert(all[26]@.len() > 0);
    assert(all[27]@.len() > 0);
    assert(all[28]@.len() > 0);
    assert(all[29]@.len() > 0);
    assert(all[30]@.len() > 0);
    assert(all[31]@.len() > 0);
    assert(all[32]@.len() > 0);
}

/// A lowercased line is marked if and only if it begins like one of the known status lines.
pub proof fn law_status_lines_are_marked_and_no_others(lowered: Seq<char>)
    ensures
        has_leak_prefix_spec(lowered) <==> ({
            ||| "risposta inviata"@.is_prefix_of(lowered)
            ||| "messaggio inviato"@.is_prefix_of(lowered)
            ||| "il messaggio è stato recapitato"@.is_prefix_of(lowered)
            ||| "il messaggio e' stato recapitato"@.is_prefix_of(lowered)
            ||| "il messaggio è stato consegnato"@.is_prefix_of(lowered)
            ||| "il messaggio e' stato consegnato"@.is_prefix_of(lowered)
            ||| "il contatto è stato risposto"@.is_prefix_of(lowered)
            ||| "il contatto e' stato risposto"@.is_prefix_of(lowered)
            ||| "il signore è stato notificato"@.is_prefix_of(lowered)
            ||| "il signore e' stato notificato"@.is_prefix_of(lowered)
            ||| "ho notificato il signore"@.is_prefix_of(lowered)
            ||| "ho inoltrato la richiesta"@.is_prefix_of(lowered)
            ||| "ho inoltrato al signore"@.is_prefix_of(lowered)
            ||| "ho inoltrato la tua richiesta"@.is_prefix_of(lowered)
            ||| "ho girato la richiesta"@.is_prefix_of(lowered)
            ||| "ho girato al signore"@.is_prefix_of(lowered)
            ||| "ho trasmesso al signore"@.is_prefix_of(lowered)
            ||| "ho comunicato al signore"@.is_prefix_of(lowered)
            ||| "ho passato al signore"@.is_prefix_of(lowered)
            ||| "ho avvisato il signore"@.is_prefix_of(lowered)
            ||| "ho consegnato il messaggio"@.is_prefix_of(lowered)
            ||| "ho recapitato"@.is_prefix_of(lowered)
            ||| "ho fatto sapere al signore"@.is_prefix_of(lowered)
            ||| "ho risposto al contatto"@.is_prefix_of(lowered)
            ||| "ho risposto allo stranger"@.is_prefix_of(lowered)
            ||| "conferma invio"@.is_prefix_of(lowered)
            ||| "conferma inviata"@.is_prefix_of(lowered)
            ||| "invio completato"@.is_prefix_of(lowered)
            ||| "inoltro completato"@.is_prefix_of(lowered)
            ||| "risposta consegnata"@.is_prefix_of(lowered)
            ||| "ho già inoltrato"@.is_prefix_of(lowered)
            ||| "ho gia' inoltrato"@.is_prefix_of(lowered)
            ||| "l'ho fatto presente"@.is_prefix_of(lowered)
        }),
{
    let all = leak_line_prefixes_spec();
    assert(all[0]@ == "risposta inviata"@);
    assert(all[1]@ == "messaggio inviato"@);
    assert(all[2]@ == "il messaggio è stato recapitato"@);
    assert(all[3]@ == "il messaggio e' stato recapitato"@);
    assert(all[4]@ == "il messaggio è stato consegnato"@);
    assert(all[5]@ == "il messaggio e' stato consegnato"@);
    assert(all[6]@ == "il contatto è stato risposto"@);
    assert(all[7]@ == "il contatto e' stato risposto"@);
    assert(all[8]@ == "il signore è stato notificato"@);
    assert(all[9]@ == "il signore e' stato notificato"@);
    assert(all[10]@ == "ho notificato il signore"@);
    assert(all[11]@ == "ho inoltrato la richiesta"@);
    assert(all[12]@ == "ho inoltrato al signore"@);
    assert(all[13]@ == "ho inoltrato la tua richiesta"@);
    assert(all[14]@ == "ho girato la richiesta"@);
    assert(all[15]@ == "ho girato al signore"@);
    assert(all[16]@ == "ho trasmesso al signore"@);
    assert(all[17]@ == "ho comunicato al signore"@);
    assert(all[18]@ == "ho passato al signore"@);
    assert(all[19]@ == "ho avvisato il signore"@);
    assert(all[20]@ == "ho consegnato il messaggio"@);
    assert(all[21]@ == "ho recapitato"@);
    assert(all[22]@ == "ho fatto sapere al signore"@);
    assert(all[23]@ == "ho risposto al contatto"@);
    assert(all[24]@ == "ho risposto allo stranger"@);
    assert(all[25]@ == "conferma invio"@);
    assert(all[26]@ == "conferma inviata"@);
    assert(all[27]@ == "invio completato"@);
    assert(all[28]@ == "inoltro completato"@);
    assert(all[29]@ == "risposta consegnata"@);
    assert(all[30]@ == "ho già inoltrato"@);
    assert(all[31]@ == "ho gia' inoltrato"@);
    assert(all[32]@ == "l'ho fatto presente"@);
    if has_leak_prefix_spec(lowered) {
        let i = choose|i: int| 0 <= i < all.len() && (#[trigger] all[i])@.is_prefix_of(lowered);
        assert(all[i]@.is_prefix_of(lowered));
    }
}

/// A line is marked only where, trimmed and lowercased, it begins with one of the texts in the
/// list, and wherever it does.
pub proof fn law_only_listed_beginnings_mark_a_line(line: Seq<char>)
    ensures
        leak_line(line) <==> exists|i: int|
            0 <= i < leak_line_prefixes_spec().len() && (
            #[trigger] leak_line_prefixes_spec()[i])@.is_prefix_of(
                text::unicode_lowercase(text::trimmed(line)),
            ),
        ascii_leak_line(line) <==> exists|i: int|
            0 <= i < leak_line_prefixes_spec().len() && (
            #[trigger] leak_line_prefixes_spec()[i])@.is_prefix_of(
                text::ascii_lowered(text::trimmed(line)),
            ),
{
    lemma_marked_is_listed(text::unicode_lowercase(text::trimmed(line)));
    lemma_marked_is_listed(text::ascii_lowered(text::trimmed(line)));
}

/// What is marked begins with a text in the list, and is not empty then.
proof fn lemma_marked_is_listed(lowered: Seq<char>)
    ensures
        has_leak_prefix_spec(lowered) <==> exists|i: int|
            0 <= i < leak_line_prefixes_spec().len() && (
            #[trigger] leak_line_prefixes_spec()[i])@.is_prefix_of(lowered),
        has_leak_prefix_spec(lowered) ==> lowered.len() > 0,
{
    lemma_prefixes_are_not_empty();
}

/// A text that trims to nothing is white space throughout.
proof fn lemma_blank_is_white_space(s: Seq<char>)
    ensures
        text::trimmed(s).len() == 0 <==> forall|i: int|
            0 <= i < s.len() ==> text::is_white_space_spec(#[trigger] s[i]),
{
    text::law_trimming_takes_white_space_off(s);
    let from = s.len() - text::trimmed_start(s).len();
    let to = from + text::trimmed(s).len();
    if forall|i: int| 0 <= i < s.len() ==> text::is_white_space_spec(#[trigger] s[i]) {
        if from < to {
            assert(text::is_white_space_spec(s[from]));
        }
    }
}

/// Lines are blank together exactly where each one is.
proof fn lemma_blank_lines(lines: Seq<Seq<char>>)
    ensures
        text::trimmed(text::joined(lines, seq!['\n'])).len() == 0 <==> forall|i: int|
            0 <= i < lines.len() ==> text::trimmed(#[trigger] lines[i]).len() == 0,
    decreases lines.len(),
{
    let whole = text::joined(lines, seq!['\n']);
    lemma_blank_is_white_space(whole);
    if lines.len() > 0 {
        lemma_blank_is_white_space(lines.last());
        assert(lines[lines.len() - 1] == lines.last());
    }
    if lines.len() > 1 {
        let front = lines.drop_last();
        let before = text::joined(front, seq!['\n']);
        lemma_blank_lines(front);
        lemma_blank_is_white_space(before);
        let n = before.len() as int;
        assert(whole == before + seq!['\n'] + lines.last());
        if text::trimmed(whole).len() == 0 {
            assert forall|i: int| 0 <= i < n implies text::is_white_space_spec(
                #[trigger] before[i],
            ) by {
                assert(whole[i] == before[i]);
            }
            assert forall|i: int| 0 <= i < lines.last().len() implies text::is_white_space_spec(
                #[trigger] lines.last()[i],
            ) by {
                assert(whole[n + 1 + i] == lines.last()[i]);
            }
            assert forall|i: int| 0 <= i < lines.len() implies text::trimmed(
                #[trigger] lines[i],
            ).len() == 0 by {
                if i < front.len() {
                    assert(front[i] == lines[i]);
                }
            }
        }
        if forall|i: int|
            0 <= i < lines.len() ==> text::trimmed(#[trigger] lines[i]).len() == 0 {
            assert forall|i: int| 0 <= i < front.len() implies text::trimmed(
                #[trigger] front[i],
            ).len() == 0 by {
                assert(front[i] == lines[i]);
            }
            assert forall|i: int| 0 <= i < whole.len() implies text::is_white_space_spec(
                #[trigger] whole[i],
            ) by {
                if i < n {
                    assert(whole[i] == before[i]);
                } else if i > n {
                    assert(whole[i] == lines.last()[i - n - 1]);
                }
            }
        }
    }
}

/// A line that is not marked is kept.
proof fn lemma_unmarked_is_kept(lines: Seq<Seq<char>>, leak: Seq<bool>, i: int)
    requires
        0 <= i < lines.len(),
        !leak[i],
    ensures
        exists|k: int|
            0 <= k < kept_lines(lines, leak).len() && #[trigger] kept_lines(lines, leak)[k]
                == lines[i],
    decreases lines.len(),
{
    let kept = kept_lines(lines, leak);
    if i == lines.len() - 1 {
        assert(kept[kept.len() - 1] == lines[i]);
    } else {
        let front = lines.drop_last();
        lemma_unmarked_is_kept(front, leak, i);
        let before = kept_lines(front, leak);
        let k = choose|k: int| 0 <= k < before.len() && #[trigger] before[k] == front[i];
        assert(kept[k] == lines[i]);
    }
}

/// Every line of a reply that begins with none of the texts in the list stands in what is sent;
/// only where all such lines are blank is the fallback sent in their place.
pub proof fn law_other_lines_are_sent(reply: Seq<char>, i: int)
    requires
        0 <= i < text::split_on(reply, '\n').len(),
        forall|k: int|
            0 <= k < leak_line_prefixes_spec().len() ==> !(
            #[trigger] leak_line_prefixes_spec()[k])@.is_prefix_of(
                text::unicode_lowercase(text::trimmed(text::split_on(reply, '\n')[i])),
            ),
    ensures
        ({
            let line = text::split_on(reply, '\n')[i];
            let sent = sanitized(reply, |l: Seq<char>| leak_line(l));
            ||| text::split_on(sent, '\n').contains(line)
            ||| sent == "Va bene. 🎩"@ && text::trimmed(line).len() == 0
        }),
{
    let mark = |l: Seq<char>| leak_line(l);
    let lines = text::split_on(reply, '\n');
    let marks = verdicts(lines, mark);
    let kept = kept_lines(lines, marks);
    law_only_listed_beginnings_mark_a_line(lines[i]);
    assert(!mark(lines[i]));
    lemma_unmarked_is_kept(lines, marks, i);
    let k = choose|k: int| 0 <= k < kept.len() && #[trigger] kept[k] == lines[i];
    if falls_back(reply, mark) {
        lemma_blank_lines(kept);
        assert(text::trimmed(kept[k]).len() == 0);
    } else {
        lemma_sent_lines(reply, mark);
        assert(text::split_on(sanitized(reply, mark), '\n')[k] == lines[i]);
    }
}

/// The fallback is sent if and only if every line of a reply is blank or a leak line; it is this
/// text.
pub proof fn law_fallback_stands_for_nothing(reply: Seq<char>, leak: spec_fn(Seq<char>) -> bool)
    ensures
        falls_back(reply, leak) <==> forall|i: int|
            0 <= i < text::split_on(reply, '\n').len() ==> text::trimmed(
                #[trigger] text::split_on(reply, '\n')[i],
            ).len() == 0 || leak(text::split_on(reply, '\n')[i]),
        falls_back(reply, leak) ==> sanitized(reply, leak) == "Va bene. 🎩"@,
{
    let lines = text::split_on(reply, '\n');
    let marks = verdicts(lines, leak);
    let kept = kept_lines(lines, marks);
    lemma_blank_lines(kept);
    lemma_kept_lines(lines, marks);
    if falls_back(reply, leak) {
        assert forall|i: int| 0 <= i < lines.len() implies text::trimmed(
            #[trigger] lines[i],
        ).len() == 0 || leak(lines[i]) by {
            if !leak(lines[i]) {
                assert(!marks[i]);
                lemma_unmarked_is_kept(lines, marks, i);
                let k = choose|k: int| 0 <= k < kept.len() && #[trigger] kept[k] == lines[i];
                assert(text::trimmed(kept[k]).len() == 0);
            }
        }
    }
    if forall|i: int|
        0 <= i < lines.len() ==> text::trimmed(#[trigger] lines[i]).len() == 0 || leak(lines[i]) {
        assert forall|k: int| 0 <= k < kept.len() implies text::trimmed(
            #[trigger] kept[k],
        ).len() == 0 by {
            let j = choose|j: int| 0 <= j < lines.len() && !marks[j] && lines[j] == kept[k];
            assert(!leak(lines[j]));
            assert(text::trimmed(lines[j]).len() == 0);
        }
    }
}

/// What is kept of a list depends on the marks of its own lines.
proof fn lemma_kept_by_own_marks(lines: Seq<Seq<char>>, a: Seq<bool>, b: Seq<bool>)
    requires
        forall|i: int| 0 <= i < lines.len() ==> a[i] == b[i],
    ensures
        kept_lines(lines, a) == kept_lines(lines, b),
    decreases lines.len(),
{
    if lines.len() > 0 {
        lemma_kept_by_own_marks(lines.drop_last(), a, b);
    }
}

/// What is kept of two lists is kept of them one after the other.
proof fn lemma_kept_of_both(
    x: Seq<Seq<char>>,
    y: Seq<Seq<char>>,
    leak: spec_fn(Seq<char>) -> bool,
)
    ensures
        kept_lines(x + y, verdicts(x + y, leak)) == kept_lines(x, verdicts(x, leak)) + kept_lines(
            y,
            verdicts(y, leak),
        ),
    decreases y.len(),
{
    let all = x + y;
    if y.len() == 0 {
        assert(all == x);
        assert(kept_lines(y, verdicts(y, leak)) == Seq::<Seq<char>>::empty());
    } else {
        let front = y.drop_last();
        lemma_kept_of_both(x, front, leak);
        assert(all.drop_last() == x + front);
        lemma_kept_by_own_marks(x + front, verdicts(all, leak), verdicts(x + front, leak));
        lemma_kept_by_own_marks(front, verdicts(y, leak), verdicts(front, leak));
        assert(all.last() == y.last());
        assert(verdicts(all, leak)[all.len() - 1] == leak(y.last()));
        assert(verdicts(y, leak)[y.len() - 1] == leak(y.last()));
    }
}

/// A leak line changes nothing about the rest: with it or without it, wherever it stands, the same
/// is sent.
pub proof fn law_leak_line_is_cut_out(
    before: Seq<Seq<char>>,
    line: Seq<char>,
    after: Seq<Seq<char>>,
    leak: spec_fn(Seq<char>) -> bool,
)
    requires
        leak(line),
        !line.contains('\n'),
        forall|i: int| 0 <= i < before.len() ==> !(#[trigger] before[i]).contains('\n'),
        forall|i: int| 0 <= i < after.len() ==> !(#[trigger] after[i]).contains('\n'),
        before.len() + after.len() > 0,
    ensures
        sanitized(text::joined(before.push(line) + after, seq!['\n']), leak) == sanitized(
            text::joined(before + after, seq!['\n']),
            leak,
        ),
{
    let with = before.push(line) + after;
    let without = before + after;
    assert forall|i: int| 0 <= i < with.len() implies !(#[trigger] with[i]).contains('\n') by {
        if i < before.len() {
            assert(with[i] == before[i]);
        } else if i > before.len() {
            assert(with[i] == after[i - before.len() - 1]);
        }
    }
    assert forall|i: int| 0 <= i < without.len() implies !(#[trigger] without[i]).contains(
        '\n',
    ) by {
        if i < before.len() {
            assert(without[i] == before[i]);
        } else {
            assert(without[i] == after[i - before.len()]);
        }
    }
    text::lemma_joined_split(with, '\n');
    text::lemma_joined_split(without, '\n');
    let one = seq![line];
    assert(before.push(line) == before + one);
    lemma_kept_of_both(before + one, after, leak);
    lemma_kept_of_both(before, one, leak);
    lemma_kept_of_both(before, after, leak);
    assert(verdicts(one, leak)[0] == leak(line));
    lemma_kept_none(one, verdicts(one, leak));
    assert(kept_lines(with, verdicts(with, leak)) == kept_lines(without, verdicts(without, leak)));
}

} // verus!
