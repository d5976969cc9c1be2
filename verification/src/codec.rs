//! Poll codec: the poll's entire state is persisted as human-readable text
//! inside the posted message, so that text is a wire format with a grammar.
//!
//! A poll body is, in order: a user mention `<@id>`, a fixed opening phrase
//! ending in a newline, the target description (a room mention `<#id>` or a
//! quoted new-room phrase), a fixed middle phrase, the timeout in minutes as
//! a decimal numeral, and a fixed closing phrase. Parsing anchors on the end
//! of the text, so arbitrary decorative text may precede the poll body
//! without causing false matches.

use vstd::prelude::*;
use crate::digits::{
    all_digits, digit_suffix_len, digits_val, is_digit, is_digit_char, parse_digits, render_u64,
    spec_digits,
};

verus! {

/// The reaction glyph that marks a vote and, from the requester, finalizes
/// the poll.
pub const MARKER_GLYPH: char = '🤚';

/// Where the poll proposes to move: an already existing room, or a room to
/// be claimed and renamed.
pub enum Target {
    /// Move into the room with this identity.
    ExistingRoom(u64),
    /// Claim a fresh room and rename it to this name.
    NewRoomNamed(Vec<char>),
}

/// Mathematical model of a [`Target`].
pub enum TargetModel {
    ExistingRoom { room: nat },
    NewRoomNamed { name: Seq<char> },
}

impl View for Target {
    type V = TargetModel;

    open spec fn view(&self) -> TargetModel {
        match self {
            Target::ExistingRoom(room) => TargetModel::ExistingRoom { room: *room as nat },
            Target::NewRoomNamed(name) => TargetModel::NewRoomNamed { name: name@ },
        }
    }
}

/// The targets the codec round-trips: a representable room id, or a
/// non-empty name free of newlines (the grammar separates the target from
/// the phrase before it by the line break that ends the opening phrase).
pub open spec fn valid_target(t: TargetModel) -> bool {
    match t {
        TargetModel::ExistingRoom { room } => room <= u64::MAX,
        TargetModel::NewRoomNamed { name } => name.len() > 0 && no_newline(name),
    }
}

/// No character of `s` is a line break.
pub open spec fn no_newline(s: Seq<char>) -> bool {
    forall|i: int| 0 <= i < s.len() ==> #[trigger] s[i] != '\n'
}

/// Fixed phrase after the requester mention; ends with the newline that
/// separates it from the target description.
pub open spec fn opening_text() -> Seq<char> {
    seq![
        'が', '一', '緒', 'に', '移', '動', 'す', 'る', '人', 'の', '募', '集', 'を', '開', '始',
        'し', 'ま', 'し', 'た', '。', '\n',
    ]
}

/// Fixed phrase between the target description and the timeout numeral.
pub open spec fn middle_text() -> Seq<char> {
    seq!['に', '移', '動', 'し', 'た', 'い', '人', 'は']
}

/// Fixed phrase after the timeout numeral; the poll body ends with it.
pub open spec fn closing_text() -> Seq<char> {
    seq![
        '分', '以', '内', 'に', 'リ', 'ア', 'ク', 'シ', 'ョ', 'ン', '押', 'し', 'て', 'く', 'だ',
        'さ', 'い', '！',
    ]
}

/// Opening of the new-room phrase; the name follows, closed by `'」'`.
pub open spec fn new_room_prefix() -> Seq<char> {
    seq!['新', '規', 'V', 'C', '「']
}

/// A user mention token.
pub open spec fn user_mention(id: nat) -> Seq<char> {
    seq!['<', '@'] + spec_digits(id) + seq!['>']
}

/// A room mention token.
pub open spec fn room_mention(id: nat) -> Seq<char> {
    seq!['<', '#'] + spec_digits(id) + seq!['>']
}

/// Rendering of the target description slot.
pub open spec fn render_target_text(t: TargetModel) -> Seq<char> {
    match t {
        TargetModel::ExistingRoom { room } => room_mention(room),
        TargetModel::NewRoomNamed { name } => new_room_prefix() + name + seq!['」'],
    }
}

/// Rendering of a whole poll body.
pub open spec fn render_poll_text(requester: nat, t: TargetModel, minutes: nat) -> Seq<char> {
    user_mention(requester) + opening_text() + render_target_text(t) + middle_text()
        + spec_digits(minutes) + closing_text()
}

/// Does `s` end with `pat`?
pub open spec fn ends_with(s: Seq<char>, pat: Seq<char>) -> bool {
    s.len() >= pat.len() && s.subrange(s.len() - pat.len(), s.len() as int) == pat
}

/// `s` with its last `k` characters removed.
pub open spec fn chop(s: Seq<char>, k: int) -> Seq<char> {
    s.take(s.len() - k)
}

/// Index of the last line break in `s`, or -1 if there is none.
pub open spec fn last_newline(s: Seq<char>) -> int
    decreases s.len(),
{
    if s.len() == 0 {
        -1
    } else if s.last() == '\n' {
        s.len() - 1
    } else {
        last_newline(s.drop_last())
    }
}

/// Parse the target description slot, the text between the opening phrase's
/// newline and the middle phrase. The room-mention form is recognized first
/// (it alone starts with `'<'`); the new-room phrase is the fallback.
pub open spec fn parse_target_text(tt: Seq<char>) -> Option<TargetModel> {
    if tt.len() > 0 && tt[0] == '<' {
        if tt.len() >= 4 && tt[1] == '#' && tt.last() == '>' {
            let mid = tt.subrange(2, tt.len() - 1);
            if all_digits(mid) && digits_val(mid) <= u64::MAX {
                Some(TargetModel::ExistingRoom { room: digits_val(mid) as nat })
            } else {
                None
            }
        } else {
            None
        }
    } else {
        if tt.len() > new_room_prefix().len() + 1 && tt.take(new_room_prefix().len() as int)
            == new_room_prefix() && tt.last() == '」' {
            Some(
                TargetModel::NewRoomNamed {
                    name: tt.subrange(new_room_prefix().len() as int, tt.len() - 1),
                },
            )
        } else {
            None
        }
    }
}

/// Parse a user mention `<@id>` at the very end of `t`; anything may
/// precede it. `None` if the end is not a mention or the id does not fit.
pub open spec fn parse_mention_suffix(t: Seq<char>) -> Option<nat> {
    if !ends_with(t, seq!['>']) {
        None
    } else {
        let t1 = chop(t, 1);
        let k = digit_suffix_len(t1);
        if k < 1 {
            None
        } else {
            let ds = t1.subrange(t1.len() - k, t1.len() as int);
            let t2 = chop(t1, k);
            if ends_with(t2, seq!['<', '@']) && digits_val(ds) <= u64::MAX {
                Some(digits_val(ds) as nat)
            } else {
                None
            }
        }
    }
}

/// Parse a poll body out of arbitrary message text, anchored on the end of
/// the text: the closing phrase, the timeout numeral and the middle phrase
/// are stripped from the end, the target slot is what follows the last line
/// break, and the opening phrase and requester mention must stand before
/// it. `None` when the text does not match this skeleton, the requester
/// token is not a valid identity reference, or the target slot is neither a
/// room mention nor a well-formed new-room phrase.
pub open spec fn parse_poll_text(text: Seq<char>) -> Option<(nat, TargetModel)> {
    if !ends_with(text, closing_text()) {
        None
    } else {
        let t1 = chop(text, closing_text().len() as int);
        let k = digit_suffix_len(t1);
        if k < 1 {
            None
        } else {
            let t2 = chop(t1, k);
            if !ends_with(t2, middle_text()) {
                None
            } else {
                let t3 = chop(t2, middle_text().len() as int);
                let p = last_newline(t3);
                if p < 0 {
                    None
                } else {
                    let tt = t3.subrange(p + 1, t3.len() as int);
                    let head = t3.take(p + 1);
                    match parse_target_text(tt) {
                        None => None,
                        Some(target) => {
                            if !ends_with(head, opening_text()) {
                                None
                            } else {
                                match parse_mention_suffix(chop(head, opening_text().len() as int)) {
                                    None => None,
                                    Some(requester) => Some((requester, target)),
                                }
                            }
                        },
                    }
                }
            }
        }
    }
}

/// Stripping an appended suffix recovers the front.
pub proof fn lemma_strip_append(a: Seq<char>, b: Seq<char>)
    ensures
        ends_with(a + b, b),
        chop(a + b, b.len() as int) == a,
{
    assert((a + b).subrange((a + b).len() - b.len(), (a + b).len() as int) =~= b);
    assert(chop(a + b, b.len() as int) =~= a);
}

/// The last newline of `a + b` is the last of `a` when `b` has none.
pub proof fn lemma_last_newline_append(a: Seq<char>, b: Seq<char>)
    requires
        a.len() > 0,
        a.last() == '\n',
        no_newline(b),
    ensures
        last_newline(a + b) == a.len() - 1,
    decreases b.len(),
{
    if b.len() == 0 {
        assert(a + b =~= a);
    } else {
        assert((a + b).last() == b.last());
        assert(b.last() != '\n');
        assert((a + b).drop_last() =~= a + b.drop_last());
        assert(no_newline(b.drop_last())) by {
            assert(forall|i: int|
                0 <= i < b.len() - 1 ==> #[trigger] b.drop_last()[i] == b[i]);
        }
        lemma_last_newline_append(a, b.drop_last());
    }
}

/// Digit characters are not line breaks.
pub proof fn lemma_digits_no_newline(n: nat)
    ensures
        no_newline(spec_digits(n)),
{
    crate::digits::lemma_spec_digits_all_digits(n);
}

/// A valid target renders without a line break.
pub proof fn lemma_render_target_no_newline(t: TargetModel)
    requires
        valid_target(t),
    ensures
        no_newline(render_target_text(t)),
{
    match t {
        TargetModel::ExistingRoom { room } => {
            lemma_digits_no_newline(room);
            let s = room_mention(room);
            assert forall|i: int| 0 <= i < s.len() implies #[trigger] s[i] != '\n' by {
                if 2 <= i < s.len() - 1 {
                    assert(s[i] == spec_digits(room)[i - 2]);
                }
            }
        },
        TargetModel::NewRoomNamed { name } => {
            let s = render_target_text(t);
            assert forall|i: int| 0 <= i < s.len() implies #[trigger] s[i] != '\n' by {
                if new_room_prefix().len() <= i < s.len() - 1 {
                    assert(s[i] == name[i - new_room_prefix().len()]);
                }
            }
        },
    }
}

/// Parsing the rendered target slot reconstructs the same tagged target.
pub proof fn lemma_parse_target_roundtrip(t: TargetModel)
    requires
        valid_target(t),
    ensures
        parse_target_text(render_target_text(t)) == Some(t),
{
    match t {
        TargetModel::ExistingRoom { room } => {
            let d = spec_digits(room);
            let s = room_mention(room);
            crate::digits::lemma_spec_digits_all_digits(room);
            crate::digits::lemma_spec_digits_val(room);
            assert(s[0] == '<');
            assert(s[1] == '#');
            assert(s.last() == '>');
            assert(s.len() >= 4);
            assert(s.subrange(2, s.len() - 1) =~= d);
        },
        TargetModel::NewRoomNamed { name } => {
            let s = render_target_text(t);
            assert(s[0] == new_room_prefix()[0]);
            assert(s[0] != '<');
            assert(s.take(new_room_prefix().len() as int) =~= new_room_prefix());
            assert(s.last() == '」');
            assert(s.len() > new_room_prefix().len() + 1);
            assert(s.subrange(new_room_prefix().len() as int, s.len() - 1) =~= name);
        },
    }
}

/// Parsing a mention suffix after arbitrary preceding text recovers the id.
pub proof fn lemma_parse_mention_roundtrip(prefix: Seq<char>, requester: nat)
    requires
        requester <= u64::MAX,
    ensures
        parse_mention_suffix(prefix + user_mention(requester)) == Some(requester),
{
    let d = spec_digits(requester);
    let t = prefix + user_mention(requester);
    let b = prefix + seq!['<', '@'] + d;
    assert(t =~= b + seq!['>']);
    lemma_strip_append(b, seq!['>']);
    let t1 = chop(t, 1);
    assert(t1 == b);
    let a = prefix + seq!['<', '@'];
    assert(b =~= a + d);
    crate::digits::lemma_spec_digits_all_digits(requester);
    crate::digits::lemma_spec_digits_val(requester);
    assert(a.last() == '@');
    crate::digits::lemma_digit_suffix_len_append(a, d);
    let k = digit_suffix_len(t1);
    assert(k == d.len());
    assert(t1.subrange(t1.len() - k, t1.len() as int) =~= d);
    lemma_strip_append(a, d);
    assert(chop(t1, k) == a);
    assert(ends_with(a, seq!['<', '@'])) by {
        assert(a.subrange(a.len() - 2, a.len() as int) =~= seq!['<', '@']);
    }
}

/// Round-trip: parsing a rendered poll body, embedded after arbitrary
/// decorative text, reconstructs the requester identity and the same tagged
/// target description (the timeout is informational and not reconstructed).
#[verifier::rlimit(100)]
pub proof fn lemma_parse_render_roundtrip(
    prefix: Seq<char>,
    requester: nat,
    t: TargetModel,
    minutes: nat,
)
    requires
        requester <= u64::MAX,
        valid_target(t),
    ensures
        parse_poll_text(prefix + render_poll_text(requester, t, minutes)) == Some(
            (requester, t),
        ),
{
    let m = user_mention(requester);
    let o = opening_text();
    let tg = render_target_text(t);
    let mi = middle_text();
    let d = spec_digits(minutes);
    let c = closing_text();
    let text = prefix + render_poll_text(requester, t, minutes);

    let a1 = prefix + m + o + tg + mi + d;
    assert(text =~= a1 + c);
    lemma_strip_append(a1, c);
    let t1 = chop(text, c.len() as int);
    assert(t1 == a1);

    let a2 = prefix + m + o + tg + mi;
    assert(a1 =~= a2 + d);
    crate::digits::lemma_spec_digits_all_digits(minutes);
    assert(a2.last() == 'は');
    crate::digits::lemma_digit_suffix_len_append(a2, d);
    assert(digit_suffix_len(t1) == d.len());
    lemma_strip_append(a2, d);
    let t2 = chop(t1, d.len() as int);
    assert(t2 == a2);

    let a3 = prefix + m + o + tg;
    assert(a2 =~= a3 + mi);
    lemma_strip_append(a3, mi);
    let t3 = chop(t2, mi.len() as int);
    assert(t3 == a3);

    let h = prefix + m + o;
    assert(a3 =~= h + tg);
    assert(h.last() == o.last()) by {
        assert(h =~= (prefix + m) + o);
    }
    lemma_render_target_no_newline(t);
    lemma_last_newline_append(h, tg);
    let p = last_newline(t3);
    assert(p == h.len() - 1);
    assert(t3.subrange(p + 1, t3.len() as int) =~= tg);
    assert(t3.take(p + 1) =~= h);

    lemma_parse_target_roundtrip(t);

    assert(h =~= (prefix + m) + o);
    lemma_strip_append(prefix + m, o);
    let t4 = chop(h, o.len() as int);
    assert(t4 == prefix + m);

    lemma_parse_mention_roundtrip(prefix, requester);
}

/// Exec copy of [`opening_text`].
pub fn opening_chars() -> (v: Vec<char>)
    ensures
        v@ == opening_text(),
{
    let v = vec![
        'が', '一', '緒', 'に', '移', '動', 'す', 'る', '人', 'の', '募', '集', 'を', '開', '始',
        'し', 'ま', 'し', 'た', '。', '\n',
    ];
    proof {
        assert(v@ =~= opening_text());
    }
    v
}

/// Exec copy of [`middle_text`].
pub fn middle_chars() -> (v: Vec<char>)
    ensures
        v@ == middle_text(),
{
    let v = vec!['に', '移', '動', 'し', 'た', 'い', '人', 'は'];
    proof {
        assert(v@ =~= middle_text());
    }
    v
}

/// Exec copy of [`closing_text`].
pub fn closing_chars() -> (v: Vec<char>)
    ensures
        v@ == closing_text(),
{
    let v = vec![
        '分', '以', '内', 'に', 'リ', 'ア', 'ク', 'シ', 'ョ', 'ン', '押', 'し', 'て', 'く', 'だ',
        'さ', 'い', '！',
    ];
    proof {
        assert(v@ =~= closing_text());
    }
    v
}

/// Exec copy of [`new_room_prefix`].
pub fn new_room_prefix_chars() -> (v: Vec<char>)
    ensures
        v@ == new_room_prefix(),
{
    let v = vec!['新', '規', 'V', 'C', '「'];
    proof {
        assert(v@ =~= new_room_prefix());
    }
    v
}

/// Append every character of `src` to `dst`.
pub fn push_all(dst: &mut Vec<char>, src: &Vec<char>)
    ensures
        final (dst)@ == old(dst)@ + src@,
{
    let mut i: usize = 0;
    while i < src.len()
        invariant
            i <= src@.len(),
            dst@ == old(dst)@ + src@.take(i as int),
        decreases src@.len() - i,
    {
        dst.push(src[i]);
        proof {
            assert(old(dst)@ + src@.take(i + 1) =~= (old(dst)@ + src@.take(i as int)).push(
                src@[i as int],
            ));
        }
        i = i + 1;
    }
    proof {
        assert(src@.take(src@.len() as int) =~= src@);
    }
}

/// Render a user mention token.
pub fn render_user_mention(id: u64) -> (v: Vec<char>)
    ensures
        v@ == user_mention(id as nat),
{
    let mut v: Vec<char> = Vec::new();
    v.push('<');
    v.push('@');
    let ds = render_u64(id);
    push_all(&mut v, &ds);
    v.push('>');
    proof {
        assert(v@ =~= user_mention(id as nat));
    }
    v
}

/// Render a room mention token.
pub fn render_room_mention(id: u64) -> (v: Vec<char>)
    ensures
        v@ == room_mention(id as nat),
{
    let mut v: Vec<char> = Vec::new();
    v.push('<');
    v.push('#');
    let ds = render_u64(id);
    push_all(&mut v, &ds);
    v.push('>');
    proof {
        assert(v@ =~= room_mention(id as nat));
    }
    v
}

/// Render the target description slot.
pub fn render_target(t: &Target) -> (v: Vec<char>)
    ensures
        v@ == render_target_text(t@),
{
    match t {
        Target::ExistingRoom(room) => render_room_mention(*room),
        Target::NewRoomNamed(name) => {
            let mut v = new_room_prefix_chars();
            push_all(&mut v, name);
            v.push('」');
            proof {
                assert(v@ =~= render_target_text(t@));
            }
            v
        },
    }
}

/// Render a whole poll body from the request's data. The poll's state is
/// persisted only as this text.
pub fn render_poll(requester: u64, t: &Target, timeout_minutes: u64) -> (v: Vec<char>)
    ensures
        v@ == render_poll_text(requester as nat, t@, timeout_minutes as nat),
{
    let mut v = render_user_mention(requester);
    let opening = opening_chars();
    push_all(&mut v, &opening);
    let target = render_target(t);
    push_all(&mut v, &target);
    let middle = middle_chars();
    push_all(&mut v, &middle);
    let minutes = render_u64(timeout_minutes);
    push_all(&mut v, &minutes);
    let closing = closing_chars();
    push_all(&mut v, &closing);
    proof {
        assert(v@ =~= render_poll_text(requester as nat, t@, timeout_minutes as nat));
    }
    v
}

/// Failure of [`parse_poll`]: the text does not carry a poll body.
#[derive(Clone, Copy, Debug, PartialEq, Eq, Structural)]
pub struct ParseError;

/// The state reconstructed from a posted poll message.
pub struct ParsedPoll {
    /// Identity of the member who requested the move.
    pub requester: u64,
    /// Where the poll proposes to move.
    pub target: Target,
}

/// Does `text[..end]` end with `pat`?
fn ends_with_at(text: &Vec<char>, end: usize, pat: &Vec<char>) -> (b: bool)
    requires
        end <= text@.len(),
    ensures
        b == ends_with(text@.take(end as int), pat@),
{
    let plen = pat.len();
    let ghost s = text@.take(end as int);
    if end < plen {
        return false;
    }
    let base = end - plen;
    let mut i: usize = 0;
    while i < plen
        invariant
            base + plen == end <= text@.len(),
            i <= plen,
            plen == pat@.len(),
            s == text@.take(end as int),
            forall|j: int| 0 <= j < i ==> text@[base + j] == pat@[j],
        decreases plen - i,
    {
        if text[base + i] != pat[i] {
            proof {
                if ends_with(s, pat@) {
                    assert(s.subrange(s.len() - plen, s.len() as int)[i as int] == pat@[i as int]);
                    assert(s[base + i] == text@[base + i]);
                    assert(false);
                }
            }
            return false;
        }
        i = i + 1;
    }
    proof {
        assert(s.subrange(s.len() - plen, s.len() as int) =~= pat@);
    }
    true
}

/// Length of the longest digit run ending at `end` in `text`.
fn scan_digits_back(text: &Vec<char>, end: usize) -> (k: usize)
    requires
        end <= text@.len(),
    ensures
        k as int == digit_suffix_len(text@.take(end as int)),
        k <= end,
{
    let mut k: usize = 0;
    while k < end && is_digit(text[end - k - 1])
        invariant
            k <= end <= text@.len(),
            digit_suffix_len(text@.take(end as int)) == k + digit_suffix_len(
                text@.take((end - k) as int),
            ),
        decreases end - k,
    {
        proof {
            let s = text@.take((end - k) as int);
            assert(s.last() == text@[end - k - 1]);
            assert(s.drop_last() =~= text@.take((end - k - 1) as int));
        }
        k = k + 1;
    }
    proof {
        let s = text@.take((end - k) as int);
        if k < end {
            assert(s.last() == text@[end - k - 1]);
        }
        assert(digit_suffix_len(s) == 0);
    }
    k
}

/// Position of the last line break strictly before `end`, if any.
fn find_last_newline(text: &Vec<char>, end: usize) -> (p: Option<usize>)
    requires
        end <= text@.len(),
    ensures
        match p {
            Some(i) => last_newline(text@.take(end as int)) == i && i < end,
            None => last_newline(text@.take(end as int)) == -1,
        },
{
    let mut j: usize = end;
    while j > 0
        invariant
            j <= end <= text@.len(),
            last_newline(text@.take(end as int)) == last_newline(text@.take(j as int)),
        decreases j,
    {
        proof {
            let s = text@.take(j as int);
            assert(s.last() == text@[j - 1]);
            assert(s.drop_last() =~= text@.take(j - 1));
        }
        if text[j - 1] == '\n' {
            return Some(j - 1);
        }
        j = j - 1;
    }
    None
}

/// Copy `text[lo..hi]` into a fresh vector.
pub fn copy_range(text: &Vec<char>, lo: usize, hi: usize) -> (v: Vec<char>)
    requires
        lo <= hi <= text@.len(),
    ensures
        v@ == text@.subrange(lo as int, hi as int),
{
    let mut v: Vec<char> = Vec::new();
    let mut i: usize = lo;
    while i < hi
        invariant
            lo <= i <= hi <= text@.len(),
            v@ == text@.subrange(lo as int, i as int),
        decreases hi - i,
    {
        v.push(text[i]);
        proof {
            assert(text@.subrange(lo as int, i + 1) =~= text@.subrange(lo as int, i as int).push(
                text@[i as int],
            ));
        }
        i = i + 1;
    }
    v
}

/// Parse the target slot `text[lo..hi]`.
fn parse_target_range(text: &Vec<char>, lo: usize, hi: usize) -> (r: Option<Target>)
    requires
        lo <= hi <= text@.len(),
    ensures
        match r {
            Some(t) => parse_target_text(text@.subrange(lo as int, hi as int)) == Some(t@),
            None => parse_target_text(text@.subrange(lo as int, hi as int)) is None,
        },
{
    let ghost tt = text@.subrange(lo as int, hi as int);
    if hi == lo {
        return None;
    }
    if text[lo] == '<' {
        assert(tt[0] == '<');
        if hi - lo >= 4 && text[lo + 1] == '#' && text[hi - 1] == '>' {
            proof {
                assert(tt[1] == text@[lo + 1]);
                assert(tt.last() == text@[hi - 1]);
            }
            let mut i: usize = lo + 2;
            let ghost mid = tt.subrange(2, tt.len() - 1);
            proof {
                assert(mid =~= text@.subrange(lo + 2, hi - 1));
            }
            while i < hi - 1
                invariant
                    lo + 2 <= i <= hi - 1,
                    hi <= text@.len(),
                    tt == text@.subrange(lo as int, hi as int),
                    tt.len() >= 4,
                    tt[0] == '<',
                    tt[1] == '#',
                    tt.last() == '>',
                    mid == tt.subrange(2, tt.len() - 1),
                    mid == text@.subrange(lo + 2 as int, hi - 1),
                    forall|j: int| lo + 2 <= j < i ==> is_digit_char(#[trigger] text@[j]),
                decreases hi - i,
            {
                if !is_digit(text[i]) {
                    proof {
                        assert(mid[i - (lo + 2)] == text@[i as int]);
                        assert(!all_digits(mid));
                    }
                    return None;
                }
                i = i + 1;
            }
            proof {
                assert(all_digits(mid)) by {
                    assert(forall|j: int|
                        0 <= j < mid.len() ==> #[trigger] mid[j] == text@[lo + 2 + j]);
                }
                assert(all_digits(text@.subrange(lo + 2 as int, hi - 1 as int)));
            }
            match parse_digits(text, lo + 2, hi - 1) {
                Some(v) => Some(Target::ExistingRoom(v)),
                None => None,
            }
        } else {
            proof {
                if tt.len() >= 4 {
                    assert(tt[1] == text@[lo + 1]);
                    assert(tt.last() == text@[hi - 1]);
                }
            }
            None
        }
    } else {
        assert(tt[0] != '<');
        let prefix = new_room_prefix_chars();
        let plen = prefix.len();
        if hi - lo <= plen + 1 {
            return None;
        }
        if text[hi - 1] != '」' {
            proof {
                assert(tt.last() == text@[hi - 1]);
            }
            return None;
        }
        assert(tt.last() == '」');
        let mut i: usize = 0;
        while i < plen
            invariant
                i <= plen,
                plen == new_room_prefix().len(),
                prefix@ == new_room_prefix(),
                lo + plen + 1 < hi <= text@.len(),
                tt == text@.subrange(lo as int, hi as int),
                tt[0] != '<',
                tt.last() == '」',
                forall|j: int| 0 <= j < i ==> text@[lo + j] == new_room_prefix()[j],
            decreases plen - i,
        {
            if text[lo + i] != prefix[i] {
                proof {
                    if tt.take(plen as int) == new_room_prefix() {
                        assert(tt.take(plen as int)[i as int] == new_room_prefix()[i as int]);
                        assert(tt[i as int] == text@[lo + i]);
                        assert(false);
                    }
                }
                return None;
            }
            i = i + 1;
        }
        proof {
            assert(tt.take(plen as int) =~= new_room_prefix());
        }
        let name = copy_range(text, lo + plen, hi - 1);
        proof {
            assert(name@ =~= tt.subrange(new_room_prefix().len() as int, tt.len() - 1));
        }
        Some(Target::NewRoomNamed(name))
    }
}

/// Parse the requester mention that ends `text[..end]`.
fn parse_mention_at(text: &Vec<char>, end: usize) -> (r: Option<u64>)
    requires
        end <= text@.len(),
    ensures
        match r {
            Some(id) => parse_mention_suffix(text@.take(end as int)) == Some(id as nat),
            None => parse_mention_suffix(text@.take(end as int)) is None,
        },
{
    let ghost t = text@.take(end as int);
    if end == 0 || text[end - 1] != '>' {
        proof {
            if ends_with(t, seq!['>']) {
                assert(t.subrange(t.len() - 1, t.len() as int)[0] == '>');
                assert(t[t.len() - 1] == text@[end - 1]);
                assert(false);
            }
        }
        return None;
    }
    proof {
        assert(t.subrange(t.len() - 1, t.len() as int) =~= seq!['>']);
        assert(ends_with(t, seq!['>']));
    }
    let e1 = end - 1;
    let ghost t1 = chop(t, 1);
    proof {
        assert(t1 =~= text@.take(e1 as int));
    }
    let k = scan_digits_back(text, e1);
    if k == 0 {
        return None;
    }
    let e2 = e1 - k;
    let ghost t2 = chop(t1, k as int);
    proof {
        assert(t2 =~= text@.take(e2 as int));
    }
    if e2 < 2 || text[e2 - 1] != '@' || text[e2 - 2] != '<' {
        proof {
            if ends_with(t2, seq!['<', '@']) {
                let sub = t2.subrange(t2.len() - 2, t2.len() as int);
                assert(sub[0] == '<' && sub[1] == '@');
                assert(t2[t2.len() - 2] == text@[e2 - 2]);
                assert(t2[t2.len() - 1] == text@[e2 - 1]);
                assert(false);
            }
        }
        return None;
    }
    proof {
        assert(t2.subrange(t2.len() - 2, t2.len() as int) =~= seq!['<', '@']);
        assert(ends_with(t2, seq!['<', '@']));
        crate::digits::lemma_digit_suffix_chars(t1);
        let ds = t1.subrange(t1.len() - k, t1.len() as int);
        assert(ds =~= text@.subrange(e2 as int, e1 as int));
        assert(all_digits(text@.subrange(e2 as int, e1 as int))) by {
            assert(forall|j: int|
                0 <= j < ds.len() ==> #[trigger] ds[j] == t1[t1.len() - k + j]);
        }
    }
    match parse_digits(text, e2, e1) {
        Some(v) => {
            proof {
                let ds = t1.subrange(t1.len() - k, t1.len() as int);
                assert(ds =~= text@.subrange(e2 as int, e1 as int));
            }
            Some(v)
        },
        None => {
            proof {
                let ds = t1.subrange(t1.len() - k, t1.len() as int);
                assert(ds =~= text@.subrange(e2 as int, e1 as int));
            }
            None
        },
    }
}

/// Parse a poll body out of arbitrary message text. Returns the requester
/// identity and the tagged target description persisted in the text, or
/// `ParseError` when the text does not match the template skeleton, the
/// requester token is not a valid identity reference, or the target slot
/// matches neither variant.
pub fn parse_poll(text: &Vec<char>) -> (r: Result<ParsedPoll, ParseError>)
    ensures
        match r {
            Ok(p) => parse_poll_text(text@) == Some((p.requester as nat, p.target@)),
            Err(_) => parse_poll_text(text@) is None,
        },
{
    let n = text.len();
    proof {
        assert(text@.take(n as int) =~= text@);
    }
    let closing = closing_chars();
    if !ends_with_at(text, n, &closing) {
        return Err(ParseError);
    }
    let e1 = n - closing.len();
    let ghost t1 = chop(text@, closing_text().len() as int);
    proof {
        assert(t1 =~= text@.take(e1 as int));
    }
    let k = scan_digits_back(text, e1);
    if k == 0 {
        return Err(ParseError);
    }
    let e2 = e1 - k;
    let ghost t2 = chop(t1, k as int);
    proof {
        assert(t2 =~= text@.take(e2 as int));
    }
    let middle = middle_chars();
    if !ends_with_at(text, e2, &middle) {
        return Err(ParseError);
    }
    let e3 = e2 - middle.len();
    let ghost t3 = chop(t2, middle_text().len() as int);
    proof {
        assert(t3 =~= text@.take(e3 as int));
    }
    let p = match find_last_newline(text, e3) {
        Some(p) => p,
        None => {
            return Err(ParseError);
        },
    };
    proof {
        assert(t3.subrange(last_newline(t3) + 1, t3.len() as int) =~= text@.subrange(
            p + 1,
            e3 as int,
        ));
    }
    let target = match parse_target_range(text, p + 1, e3) {
        Some(t) => t,
        None => {
            return Err(ParseError);
        },
    };
    let ghost head = t3.take(p + 1);
    proof {
        assert(head =~= text@.take(p + 1));
    }
    let opening = opening_chars();
    if !ends_with_at(text, p + 1, &opening) {
        return Err(ParseError);
    }
    let e4 = p + 1 - opening.len();
    proof {
        assert(chop(head, opening_text().len() as int) =~= text@.take(e4 as int));
    }
    let requester = match parse_mention_at(text, e4) {
        Some(r) => r,
        None => {
            return Err(ParseError);
        },
    };
    Ok(ParsedPoll { requester, target })
}

} // verus!
