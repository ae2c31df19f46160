//! What the tools read and print, in terms of the words and records given.
use crate::base::text::{decimal, number_in, NumberFault};
use crate::replay::cli::{
    command_of, flags_in, parts_of, request_of, ArgsModel, FlagsModel, Parts, DEFAULT_DIR,
    DEFAULT_RECORD_COUNT, DEFAULT_SEED, DEFAULT_SESSION_ID,
};
use crate::replay::command::{
    base64, kind_wire, quad, sextet_char, source_wire, AiSourceWire, RecordKindWire,
    REPLAY_COMMAND_LIST, REPLAY_COMMAND_OPEN, REPLAY_COMMAND_PLAY, REPLAY_COMMAND_PREFIX,
    REPLAY_COMMAND_SCRUB, REPLAY_COMMAND_STATUS, REPLAY_COMMAND_STEP,
};
use crate::replay::error::ReplayError;
use crate::replay::mode::ReplayMode;
use crate::replay::player::ReplaySpeed;
use crate::replay::playback::kind_name;
use crate::replay::record::{AISource, RecordKind, RecordModel};
use crate::replay::report::{
    count_of, full_name, info_lines, kind_lines, list_lines, record_line, right_aligned,
    source_name, timed_lines, timing_lines,
};
use vstd::prelude::*;

verus! {

/// Whether no word of a command line is an option.
pub open spec fn plain(words: Seq<Seq<char>>) -> bool {
    forall|i: int|
        0 <= i < words.len() ==> (#[trigger] words[i]) != "--dir"@ && words[i] != "-h"@ && words[i]
            != "--help"@
}

/// Words that are no options are taken as they come.
pub proof fn law_plain_words_are_taken(
    words: Seq<Seq<char>>,
    more: Seq<Seq<char>>,
    dir: Option<Seq<char>>,
    before: Seq<Seq<char>>,
)
    requires
        plain(words),
    ensures
        parts_of(words + more, dir, before) == parts_of(more, dir, before + words),
        parts_of(words, dir, before) == (Parts::Parsed { dir, positional: before + words }),
    decreases words.len(),
{
    if words.len() == 0 {
        assert(words + more =~= more);
        assert(before + words =~= before);
    } else {
        let rest = words.skip(1);
        assert forall|i: int| 0 <= i < rest.len() implies (#[trigger] rest[i]) != "--dir"@
            && rest[i] != "-h"@ && rest[i] != "--help"@ by {
            assert(rest[i] == words[i + 1]);
        }
        law_plain_words_are_taken(rest, more, dir, before.push(words[0]));
        assert((words + more).skip(1) =~= rest + more);
        assert((words + more)[0] == words[0]);
        assert(before.push(words[0]) + rest =~= before + words);
    }
}

/// The directory may stand anywhere among the words of a command; without one, none is
/// meant.
pub proof fn law_directory_may_stand_anywhere(
    before: Seq<Seq<char>>,
    dir: Seq<char>,
    after: Seq<Seq<char>>,
)
    requires
        plain(before),
        plain(after),
    ensures
        request_of(before + after) == command_of(None, before + after),
        request_of(before + seq!["--dir"@, dir] + after) == command_of(Some(dir), before + after),
        request_of(before.push("--dir"@)) == Err::<ArgsModel, Seq<char>>("--dir requires a value"@),
{
    let none = Seq::<Seq<char>>::empty();
    let option = seq!["--dir"@, dir];
    law_plain_words_are_taken(before, after, None, none);
    law_plain_words_are_taken(after, none, None, none + before);
    assert(none + before =~= before);
    assert(after + none =~= after);
    law_plain_words_are_taken(before, option + after, None, none);
    assert(before + option + after =~= before + (option + after));
    assert((option + after).skip(2) =~= after);
    assert((option + after)[0] == "--dir"@ && (option + after)[1] == dir);
    law_plain_words_are_taken(after, none, Some(dir), before);
    law_plain_words_are_taken(before, seq!["--dir"@], None, none);
    assert(before.push("--dir"@) =~= before + seq!["--dir"@]);
}

/// Whoever asks for help gets it, whatever else stands after it.
pub proof fn law_help_is_given(before: Seq<Seq<char>>, word: Seq<char>, after: Seq<Seq<char>>)
    requires
        plain(before),
        word == "-h"@ || word == "--help"@,
    ensures
        request_of(before + seq![word] + after) == Ok::<ArgsModel, Seq<char>>(ArgsModel::Help),
{
    let none = Seq::<Seq<char>>::empty();
    reveal_strlit("-h");
    reveal_strlit("--help");
    reveal_strlit("--dir");
    law_plain_words_are_taken(before, seq![word] + after, None, none);
    assert(before + seq![word] + after =~= before + (seq![word] + after));
    assert((seq![word] + after)[0] == word);
    assert(word.len() == 2 || word.len() == 6);
}

/// A command is told by its first word: a list needs no more, and the others need the
/// number of a session.
pub proof fn law_commands_are_told_by_their_word(
    dir: Option<Seq<char>>,
    words: Seq<Seq<char>>,
    n: u64,
)
    ensures
        words.len() == 0 ==> command_of(dir, words) == Err::<ArgsModel, Seq<char>>(
            "missing command (try `hedge-replay --help`)"@,
        ),
        words.len() >= 1 && words[0] == "list"@ ==> command_of(dir, words) == Ok::<
            ArgsModel,
            Seq<char>,
        >(ArgsModel::List { dir }),
        words.len() >= 2 && words[0] == "info"@ && number_in(words[1]) == Ok::<int, NumberFault>(
            n as int,
        ) ==> command_of(dir, words) == Ok::<ArgsModel, Seq<char>>(
            ArgsModel::Info { dir, session_id: n },
        ),
        words.len() >= 2 && words[0] == "dump"@ && number_in(words[1]) == Ok::<int, NumberFault>(
            n as int,
        ) ==> command_of(dir, words) == Ok::<ArgsModel, Seq<char>>(
            ArgsModel::Dump { dir, session_id: n },
        ),
        words.len() >= 2 && words[0] == "play"@ && number_in(words[1]) == Ok::<int, NumberFault>(
            n as int,
        ) ==> {
            let speed = if words.len() >= 3 && words[2] == "x10"@ {
                ReplaySpeed::X10
            } else if words.len() >= 3 && words[2] == "max"@ {
                ReplaySpeed::Max
            } else {
                ReplaySpeed::X1
            };
            command_of(dir, words) == Ok::<ArgsModel, Seq<char>>(
                ArgsModel::Play { dir, session_id: n, speed },
            )
        },
        words.len() == 1 && (words[0] == "info"@ || words[0] == "dump"@ || words[0] == "play"@)
            ==> command_of(dir, words) == Err::<ArgsModel, Seq<char>>(
            words[0] + " requires <session_id>"@,
        ),
        words.len() >= 2 && (words[0] == "info"@ || words[0] == "dump"@ || words[0] == "play"@)
            && number_in(words[1]) is Err ==> command_of(dir, words) is Err,
        words.len() >= 1 && words[0] != "list"@ && words[0] != "info"@ && words[0] != "dump"@
            && words[0] != "play"@ ==> command_of(dir, words) == Err::<ArgsModel, Seq<char>>(
            "unknown command: "@ + words[0],
        ),
{
    reveal_strlit("list");
    reveal_strlit("info");
    reveal_strlit("dump");
    reveal_strlit("play");
    if words.len() > 0 {
        let w = words[0];
        assert("list"@[0] == 'l' && "info"@[0] == 'i' && "dump"@[0] == 'd' && "play"@[0] == 'p');
    }
}

/// Each flag takes the word that follows it, and the other values stay as they are.
pub proof fn law_flags_take_the_next_word(
    value: Seq<char>,
    n: u64,
    rest: Seq<Seq<char>>,
    path_flag: Seq<char>,
    number_flag: Seq<char>,
    now: FlagsModel,
)
    requires
        path_flag != "--session-id"@,
        number_flag != "--session-id"@,
        path_flag != number_flag,
    ensures
        flags_in(Seq::empty(), path_flag, number_flag, now) == Ok::<
            Option<FlagsModel>,
            Seq<char>,
        >(Some(now)),
        flags_in(seq![path_flag, value] + rest, path_flag, number_flag, now) == flags_in(
            rest,
            path_flag,
            number_flag,
            FlagsModel { path: value, session_id: now.session_id, number: now.number },
        ),
        number_in(value) == Ok::<int, NumberFault>(n as int) ==> flags_in(
            seq!["--session-id"@, value] + rest,
            path_flag,
            number_flag,
            now,
        ) == flags_in(
            rest,
            path_flag,
            number_flag,
            FlagsModel { path: now.path, session_id: n, number: now.number },
        ),
        number_in(value) == Ok::<int, NumberFault>(n as int) ==> flags_in(
            seq![number_flag, value] + rest,
            path_flag,
            number_flag,
            now,
        ) == flags_in(
            rest,
            path_flag,
            number_flag,
            FlagsModel { path: now.path, session_id: now.session_id, number: n },
        ),
        number_in(value) is Err ==> flags_in(
            seq![number_flag, value] + rest,
            path_flag,
            number_flag,
            now,
        ) is Err && flags_in(seq!["--session-id"@, value] + rest, path_flag, number_flag, now) is Err,
{
    let a = seq![path_flag, value] + rest;
    let b = seq!["--session-id"@, value] + rest;
    let c = seq![number_flag, value] + rest;
    assert(a.skip(2) =~= rest && a[0] == path_flag && a[1] == value);
    assert(b.skip(2) =~= rest && b[0] == "--session-id"@ && b[1] == value);
    assert(c.skip(2) =~= rest && c[0] == number_flag && c[1] == value);
}

/// A flag without its word is an error, help is given, and other words are unknown.
pub proof fn law_other_words_are_no_flags(
    word: Seq<char>,
    rest: Seq<Seq<char>>,
    path_flag: Seq<char>,
    number_flag: Seq<char>,
    now: FlagsModel,
)
    ensures
        word == path_flag || word == number_flag || word == "--session-id"@ ==> flags_in(
            seq![word],
            path_flag,
            number_flag,
            now,
        ) == Err::<Option<FlagsModel>, Seq<char>>(word + " requires a value"@),
        word != path_flag && word != number_flag && word != "--session-id"@ && (word == "-h"@
            || word == "--help"@) ==> flags_in(seq![word] + rest, path_flag, number_flag, now)
            == Ok::<Option<FlagsModel>, Seq<char>>(None),
        word != path_flag && word != number_flag && word != "--session-id"@ && word != "-h"@ && word
            != "--help"@ ==> flags_in(seq![word] + rest, path_flag, number_flag, now) == Err::<
            Option<FlagsModel>,
            Seq<char>,
        >("unknown argument: "@ + word),
{
    assert((seq![word] + rest)[0] == word);
}

/// What stands where no flag is given.
pub proof fn law_defaults_are_canonical()
    ensures
        DEFAULT_SESSION_ID == 20251130,
        DEFAULT_RECORD_COUNT == 64,
        DEFAULT_SEED == 0xDEAD_BEEF_CAFE_BABE,
        DEFAULT_DIR@ == "tests/fixtures/replay/canonical"@,
{
}

/// A kind is sent as what it is, and two kinds are never sent alike.
pub proof fn law_kinds_are_sent_as_they_are(a: RecordKind, b: RecordKind, s: AISource)
    ensures
        kind_wire(a) == kind_wire(b) ==> a == b,
        a is Tick <==> kind_wire(a) is Tick,
        a is OrderBook <==> kind_wire(a) is OrderBook,
        a is OpenInterest <==> kind_wire(a) is OpenInterest,
        a is NewsEvent <==> kind_wire(a) is NewsEvent,
        a is SignalEmitted <==> kind_wire(a) is SignalEmitted,
        a is RiskDecision <==> kind_wire(a) is RiskDecision,
        a is OrderSubmitted <==> kind_wire(a) is OrderSubmitted,
        a is OrderModified <==> kind_wire(a) is OrderModified,
        a is OrderCancelled <==> kind_wire(a) is OrderCancelled,
        a is Fill <==> kind_wire(a) is Fill,
        a is TraderAction <==> kind_wire(a) is TraderAction,
        a is MarketConditionSnapshot <==> kind_wire(a) is MarketConditionSnapshot,
        kind_wire(RecordKind::AIDecision(s)) == (RecordKindWire::AiDecision {
            source: source_wire(s),
        }),
        s is Ranking <==> source_wire(s) is Ranking,
        s is Regime <==> source_wire(s) is Regime,
        s is News <==> source_wire(s) is News,
        s is Psychology <==> source_wire(s) is Psychology,
        s is Priority <==> source_wire(s) is Priority,
        s is Journal <==> source_wire(s) is Journal,
        s is Governance <==> source_wire(s) is Governance,
        s is Other <==> source_wire(s) is Other,
{
    if a is AIDecision && b is AIDecision {
        let x: AiSourceWire = source_wire(a->AIDecision_0);
        let y: AiSourceWire = source_wire(b->AIDecision_0);
        assert(kind_wire(a) == kind_wire(b) ==> x == y);
    }
}

/// The subjects of the commands all begin alike, and no two are the same.
pub proof fn law_commands_have_their_own_subjects()
    ensures
        REPLAY_COMMAND_LIST@ == REPLAY_COMMAND_PREFIX@ + ".list"@,
        REPLAY_COMMAND_OPEN@ == REPLAY_COMMAND_PREFIX@ + ".open"@,
        REPLAY_COMMAND_SCRUB@ == REPLAY_COMMAND_PREFIX@ + ".scrub"@,
        REPLAY_COMMAND_STEP@ == REPLAY_COMMAND_PREFIX@ + ".step"@,
        REPLAY_COMMAND_PLAY@ == REPLAY_COMMAND_PREFIX@ + ".play"@,
        REPLAY_COMMAND_STATUS@ == REPLAY_COMMAND_PREFIX@ + ".status"@,
        REPLAY_COMMAND_PREFIX@ == "replay.command"@,
{
    reveal_strlit("replay.command");
    reveal_strlit("replay.command.list");
    reveal_strlit("replay.command.open");
    reveal_strlit("replay.command.scrub");
    reveal_strlit("replay.command.step");
    reveal_strlit("replay.command.play");
    reveal_strlit("replay.command.status");
    reveal_strlit(".list");
    reveal_strlit(".open");
    reveal_strlit(".scrub");
    reveal_strlit(".step");
    reveal_strlit(".play");
    reveal_strlit(".status");
    assert(REPLAY_COMMAND_LIST@ =~= REPLAY_COMMAND_PREFIX@ + ".list"@);
    assert(REPLAY_COMMAND_OPEN@ =~= REPLAY_COMMAND_PREFIX@ + ".open"@);
    assert(REPLAY_COMMAND_SCRUB@ =~= REPLAY_COMMAND_PREFIX@ + ".scrub"@);
    assert(REPLAY_COMMAND_STEP@ =~= REPLAY_COMMAND_PREFIX@ + ".step"@);
    assert(REPLAY_COMMAND_PLAY@ =~= REPLAY_COMMAND_PREFIX@ + ".play"@);
    assert(REPLAY_COMMAND_STATUS@ =~= REPLAY_COMMAND_PREFIX@ + ".status"@);
}

/// The characters of six-bit numbers, in order: letters, small letters, digits, a plus
/// and a slash.
pub proof fn law_sextets_are_letters(v: int)
    requires
        0 <= v < 26,
    ensures
        sextet_char(v) == ('A' as int + v) as char,
        sextet_char(26 + v) == ('a' as int + v) as char,
        v < 10 ==> sextet_char(52 + v) == ('0' as int + v) as char,
        sextet_char(62) == '+',
        sextet_char(63) == '/',
{
}

/// Three bytes are four six-bit numbers, from the highest; what is missing of the last
/// three counts as zero, and where nothing is left of it an equal sign stands.
pub proof fn law_three_bytes_make_four_characters(
    bytes: Seq<u8>,
    a: int,
    b: int,
    c: int,
    d: int,
)
    requires
        0 <= a < 64,
        0 <= b < 64,
        0 <= c < 64,
        0 <= d < 64,
    ensures
        base64(Seq::<u8>::empty()).len() == 0,
        bytes.len() >= 3 && bytes[0] * 65536 + bytes[1] * 256 + bytes[2] == a * 262144 + b * 4096
            + c * 64 + d ==> base64(bytes) == seq![
            sextet_char(a),
            sextet_char(b),
            sextet_char(c),
            sextet_char(d),
        ] + base64(bytes.skip(3)),
        bytes.len() == 2 && bytes[0] * 1024 + bytes[1] * 4 == a * 4096 + b * 64 + c ==> base64(bytes)
            == seq![sextet_char(a), sextet_char(b), sextet_char(c), '='],
        bytes.len() == 1 && bytes[0] * 16 == a * 64 + b ==> base64(bytes) == seq![
            sextet_char(a),
            sextet_char(b),
            '=',
            '=',
        ],
{
    if bytes.len() >= 3 && bytes[0] * 65536 + bytes[1] * 256 + bytes[2] == a * 262144 + b * 4096
        + c * 64 + d {
        lemma_quad_of(a, b, c, d);
    } else if bytes.len() == 2 && bytes[0] * 1024 + bytes[1] * 4 == a * 4096 + b * 64 + c {
        lemma_quad_of(a, b, c, 0);
        assert(bytes[0] * 65536 + bytes[1] * 256 == a * 262144 + b * 4096 + c * 64);
        assert(base64(bytes) =~= seq![sextet_char(a), sextet_char(b), sextet_char(c), '=']);
    } else if bytes.len() == 1 && bytes[0] * 16 == a * 64 + b {
        lemma_quad_of(a, b, 0, 0);
        assert(bytes[0] * 65536 == a * 262144 + b * 4096);
        assert(base64(bytes) =~= seq![sextet_char(a), sextet_char(b), '=', '=']);
    }
}

proof fn lemma_quad_of(a: int, b: int, c: int, d: int)
    requires
        0 <= a < 64,
        0 <= b < 64,
        0 <= c < 64,
        0 <= d < 64,
    ensures
        quad(a * 262144 + b * 4096 + c * 64 + d) == seq![
            sextet_char(a),
            sextet_char(b),
            sextet_char(c),
            sextet_char(d),
        ],
{
    let n = a * 262144 + b * 4096 + c * 64 + d;
    assert(n / 262144 == a);
    assert(n / 4096 == a * 64 + b);
    assert((a * 64 + b) % 64 == b);
    assert(n / 64 == (a * 64 + b) * 64 + c);
    assert(((a * 64 + b) * 64 + c) % 64 == c);
    assert(n % 64 == d);
}

/// Sessions are listed by their numbers, one to a line and in the order given; where
/// there is none, one line says so.
pub proof fn law_sessions_are_listed(sessions: Seq<u64>, dir: Seq<char>, i: int)
    ensures
        sessions.len() > 0 ==> list_lines(sessions, dir).len() == sessions.len(),
        0 <= i < sessions.len() ==> list_lines(sessions, dir)[i] == decimal(sessions[i] as nat),
        sessions.len() == 0 ==> list_lines(sessions, dir) == seq![
            "(no sessions recorded under "@ + dir + ")"@,
        ],
{
}

/// A session is described by its number, its segments, its records, and the numbers
/// and times of the first and last of them.
pub proof fn law_sessions_are_described(session_id: u64, segments: nat, records: Seq<RecordModel>)
    ensures
        ({
            let lines = info_lines(session_id, segments, records);
            &&& lines.len() == if records.len() == 0 {
                3nat
            } else {
                7
            }
            &&& lines[0] == "session_id    : "@ + decimal(session_id as nat)
            &&& lines[1] == "segments      : "@ + decimal(segments)
            &&& lines[2] == "records       : "@ + decimal(records.len())
            &&& records.len() > 0 ==> {
                let last = records[records.len() - 1];
                &&& lines[3] == "first_seq     : "@ + decimal(records[0].sequence_no as nat)
                &&& lines[4] == "first_mono_ns : "@ + decimal(records[0].monotonic_ns as nat)
                &&& lines[5] == "last_seq      : "@ + decimal(last.sequence_no as nat)
                &&& lines[6] == "last_mono_ns  : "@ + decimal(last.monotonic_ns as nat)
            }
        }),
{
}

/// A text stands at the right of its column, with blanks before it; one that is too
/// wide stands whole.
pub proof fn law_columns_are_filled_from_the_right(text: Seq<char>, width: nat, i: int)
    ensures
        right_aligned(text, width).len() == if text.len() >= width {
            text.len()
        } else {
            width
        },
        right_aligned(text, width).skip(right_aligned(text, width).len() - text.len()) == text,
        0 <= i < width - text.len() ==> right_aligned(text, width)[i] == ' ',
{
    let all = right_aligned(text, width);
    assert(all.skip(all.len() - text.len()) =~= text);
}

/// The line of a record shows its number, its time, its kind and its payload's size.
pub proof fn law_record_lines_show_the_record(r: RecordModel)
    ensures
        record_line(r) == right_aligned(decimal(r.sequence_no as nat), 8) + seq![' ']
            + right_aligned(decimal(r.monotonic_ns as nat), 20) + seq![' '] + kind_name(r.kind)
            + " (payload: "@ + decimal(r.payload.len()) + " bytes)"@,
{
    reveal_strlit(" ");
    assert(" "@ =~= seq![' ']);
}

/// Each record but the first is shown with the time since the one before.
pub proof fn law_timings_show_the_gaps(records: Seq<RecordModel>, i: int)
    requires
        0 <= i < records.len(),
        i > 0 ==> records[i - 1].monotonic_ns <= records[i].monotonic_ns,
    ensures
        timed_lines(records, i).len() == if i == 0 {
            1nat
        } else {
            2
        },
        timed_lines(records, i)[0] == "Record "@ + decimal(i as nat) + ": sequence_no="@ + decimal(
            records[i].sequence_no as nat,
        ) + ", monotonic_ns="@ + decimal(records[i].monotonic_ns as nat),
        i > 0 ==> timed_lines(records, i)[1] == "  Delta: "@ + decimal(
            (records[i].monotonic_ns - records[i - 1].monotonic_ns) as nat,
        ),
{
}

/// The timing report tells how many records there are and shows ten of them at most;
/// it says where there are fewer.
pub proof fn law_timings_show_ten(records: Seq<RecordModel>)
    ensures
        ({
            let lines = timing_lines(records);
            &&& lines[0] == "Total records: "@ + decimal(records.len())
            &&& records.len() >= 10 ==> lines.len() == 20
            &&& 0 < records.len() < 10 ==> lines.len() == 2 * records.len() + 1
            &&& records.len() == 0 ==> lines.len() == 2
            &&& records.len() < 10 ==> lines[lines.len() - 1] == "No more records."@
        }),
{
    if records.len() >= 10 {
        lemma_timed_count(records, 10);
    } else {
        lemma_timed_count(records, records.len());
    }
}

proof fn lemma_timed_count(records: Seq<RecordModel>, n: nat)
    ensures
        crate::replay::report::first_timed_lines(records, n).len() == if n == 0 {
            0int
        } else {
            2 * n - 1
        },
    decreases n,
{
    if n > 0 {
        lemma_timed_count(records, (n - 1) as nat);
    }
}

/// The records of a kind are counted one by one.
pub proof fn law_kinds_are_counted(records: Seq<RecordModel>, kind: RecordKind)
    ensures
        count_of(records, kind) == records.filter(|r: RecordModel| r.kind == kind).len(),
    decreases records.len(),
{
    reveal(Seq::filter);
    if records.len() > 0 {
        law_kinds_are_counted(records.drop_last(), kind);
    }
}

/// A record whose kind came up before adds no line; any other adds one, with the name
/// of its kind and how many of all records are of it.
pub proof fn law_each_kind_has_one_line(records: Seq<RecordModel>, n: nat)
    requires
        n < records.len(),
    ensures
        kind_lines(records, 0).len() == 0,
        (exists|j: int| 0 <= j < n && (#[trigger] records[j]).kind == records[n as int].kind)
            ==> kind_lines(records, n + 1) == kind_lines(records, n),
        !(exists|j: int| 0 <= j < n && (#[trigger] records[j]).kind == records[n as int].kind)
            ==> kind_lines(records, n + 1) == kind_lines(records, n).push(
            full_name(records[n as int].kind) + seq![':', ' '] + decimal(
                records.filter(|r: RecordModel| r.kind == records[n as int].kind).len(),
            ),
        ),
{
    let kind = records[n as int].kind;
    reveal_strlit(": ");
    assert(": "@ =~= seq![':', ' ']);
    lemma_counted_before(records, n, kind);
    law_kinds_are_counted(records, kind);
    let same = |r: RecordModel| r.kind == kind;
    assert(same =~= (|r: RecordModel| r.kind == records[n as int].kind));
    assert(kind_lines(records, n) + Seq::<Seq<char>>::empty() =~= kind_lines(records, n));
    let line = full_name(kind) + ": "@ + decimal(count_of(records, kind));
    assert(kind_lines(records, n) + seq![line] =~= kind_lines(records, n).push(line));
}

proof fn lemma_counted_before(records: Seq<RecordModel>, n: nat, kind: RecordKind)
    requires
        n <= records.len(),
    ensures
        count_of(records.take(n as int), kind) == 0 <==> !(exists|j: int|
            0 <= j < n && (#[trigger] records[j]).kind == kind),
    decreases n,
{
    if n > 0 {
        lemma_counted_before(records, (n - 1) as nat, kind);
        assert(records.take(n as int).drop_last() =~= records.take(n - 1));
        assert(records.take(n as int).last() == records[n - 1]);
        if records[n - 1].kind != kind && !(exists|j: int|
            0 <= j < n - 1 && (#[trigger] records[j]).kind == kind) {
            assert forall|j: int| 0 <= j < n implies (#[trigger] records[j]).kind != kind by {
                if j < n - 1 {
                    assert(records[j].kind != kind);
                }
            }
        }
    }
}

/// A decision is named with its source in brackets, any other kind by its name alone.
pub proof fn law_full_names_show_the_source(kind: RecordKind, source: AISource)
    ensures
        full_name(RecordKind::AIDecision(source)) == "AIDecision"@ + seq!['('] + source_name(source)
            + seq![')'],
        !(kind is AIDecision) ==> full_name(kind) == kind_name(kind),
{
    reveal_strlit("AIDecision");
    reveal_strlit("AIDecision(");
    reveal_strlit(")");
    assert("AIDecision("@ =~= "AIDecision"@ + seq!['(']);
    assert(")"@ =~= seq![')']);
}

/// The mode is told as on or off.
pub proof fn law_modes_are_on_or_off(mode: ReplayMode)
    ensures
        mode is On <==> mode.token() == "on"@,
        mode is Off <==> mode.token() == "off"@,
{
    reveal_strlit("on");
    reveal_strlit("off");
    assert("on"@.len() == 2 && "off"@.len() == 3);
}

/// An error repeats what it was told, each under words of its own.
pub proof fn law_replay_errors_repeat_what_they_were_told(
    text: String,
    path: String,
    session: u64,
    expected: u64,
    got: u64,
)
    ensures
        (ReplayError::SegmentIo { path, source: text }).words() == "replay segment I/O failed at "@
            + path@ + ": "@ + text@,
        ReplayError::Decode(text).words() == "replay rkyv decode failed: "@ + text@,
        ReplayError::Bus(text).words() == "replay Redis stream error: "@ + text@,
        ReplayError::BadCommand(text).words() == "replay command malformed: "@ + text@,
        ReplayError::Config(text).words() == "replay configuration error: "@ + text@,
        (ReplayError::SeekNotFound { target: got }).words()
            == "replay seek target not found: sequence_no = "@ + decimal(got as nat),
        (ReplayError::SequenceInvariant { session, expected, got }).words()
            == "replay sequence invariant broken: expected sequence_no = "@ + decimal(
            expected as nat,
        ) + ", got "@ + decimal(got as nat) + " (session_id = "@ + decimal(session as nat) + ")"@,
{
}

} // verus!
