//! The transcript parser: a line-classification state machine turning raw
//! transcript text into an ordered sequence of blocks.

use vstd::prelude::*;
use vstd::string::StrSliceExecFns;
use vstd::string::StringExecFns;

use crate::model::BlockView;
use crate::model::ChatlogBlock;
use crate::model::Config;
use crate::model::User;
use crate::model::UserFields;
use crate::text::all_alphanumeric;
use crate::text::all_whitespace;
use crate::text::find_colon_space;
use crate::text::find_colon_space_from;
use crate::text::is_all_alphanumeric;
use crate::text::is_blank_str;
use crate::text::spec_lines;
use crate::text::spec_trim;
use crate::text::split_lines;
use crate::text::str_eq;
use crate::text::trim_to_string;

verus! {

/// The model of the speaker lookup table.
pub type PeopleTable = Seq<(Seq<char>, UserFields)>;

/// The in-progress post while scanning: the speaker's record and the
/// message text gathered so far.
pub type PendingPost = Option<(UserFields, Seq<char>)>;

/// The blocks emitted when an in-progress post is closed.
pub open spec fn flushed(p: PendingPost) -> Seq<BlockView> {
    match p {
        None => seq![],
        Some((u, m)) => seq![BlockView::Post { user: u, message: m }],
    }
}

/// The first record stored under the given name, if any.
pub open spec fn lookup_user(people: PeopleTable, name: Seq<char>) -> Option<UserFields>
    decreases people.len(),
{
    if people.len() == 0 {
        None
    } else if people[0].0 == name {
        Some(people[0].1)
    } else {
        lookup_user(people.drop_first(), name)
    }
}

/// The record a speaker name resolves to: the stored one, or a synthetic
/// record whose `name` and `key` fields both hold the raw speaker token.
pub open spec fn resolved_user(people: PeopleTable, name: Seq<char>) -> UserFields {
    match lookup_user(people, name) {
        Some(u) => u,
        None => seq![("name"@, name), ("key"@, name)],
    }
}

/// A timestamp line: it begins with `'@'`.
pub open spec fn line_is_timestamp(l: Seq<char>) -> bool {
    l.len() > 0 && l[0] == '@'
}

/// Where the speaker token of the line would end: the position of the
/// first `": "` marker.
pub open spec fn speaker_name_end(l: Seq<char>) -> Option<int> {
    find_colon_space_from(l, 0)
}

/// A speaker line: there is a `": "` marker and everything before it is
/// alphanumeric.
pub open spec fn line_is_speaker(l: Seq<char>) -> bool {
    match speaker_name_end(l) {
        Some(i) => all_alphanumeric(l.take(i)),
        None => false,
    }
}

/// A continuation line extends the in-progress post with its text and a
/// newline; with no post in progress it is dropped.
pub open spec fn continued(p: PendingPost, l: Seq<char>) -> PendingPost {
    match p {
        Some((u, m)) => Some((u, m + l.push('\n'))),
        None => None,
    }
}

/// One step of the scan: the blocks emitted for this line, and the
/// in-progress post afterwards.
pub open spec fn line_step(people: PeopleTable, p: PendingPost, l: Seq<char>) -> (Seq<
    BlockView,
>, PendingPost) {
    if all_whitespace(l) {
        (seq![], p)
    } else if line_is_timestamp(l) {
        (flushed(p) + seq![BlockView::Timestamp { message: spec_trim(l.drop_first()) }], None)
    } else {
        match speaker_name_end(l) {
            Some(i) => if all_alphanumeric(l.take(i)) {
                (
                    flushed(p),
                    Some((resolved_user(people, l.take(i)), l.skip(i + 2).push('\n'))),
                )
            } else {
                (seq![], continued(p, l))
            },
            None => (seq![], continued(p, l)),
        }
    }
}

/// The blocks produced by scanning the given lines starting from the given
/// in-progress post; a post still in progress at the end is closed.
pub open spec fn parse_lines(people: PeopleTable, ls: Seq<Seq<char>>, p: PendingPost) -> Seq<
    BlockView,
>
    decreases ls.len(),
{
    if ls.len() == 0 {
        flushed(p)
    } else {
        line_step(people, p, ls[0]).0 + parse_lines(
            people,
            ls.drop_first(),
            line_step(people, p, ls[0]).1,
        )
    }
}

/// The block sequence the parser produces for the given table and input.
pub open spec fn spec_parse_posts(people: PeopleTable, input: Seq<char>) -> Seq<BlockView> {
    parse_lines(people, spec_lines(input), None)
}

/// A found `": "` marker lies within the line, with `':'` and `' '` at it.
proof fn lemma_find_marker_in_range(l: Seq<char>, j: int)
    requires
        find_colon_space_from(l, j) is Some,
    ensures
        j <= find_colon_space_from(l, j)->Some_0,
        find_colon_space_from(l, j)->Some_0 + 2 <= l.len(),
    decreases l.len() - j,
{
    if j < 0 || j + 2 > l.len() {
    } else if l[j] == ':' && l[j + 1] == ' ' {
    } else {
        lemma_find_marker_in_range(l, j + 1);
    }
}

/// A deep copy of a user record.
fn copy_user(u: &User) -> (r: User)
    ensures
        r@ == u@,
{
    let mut fields: Vec<(String, String)> = Vec::new();
    let mut i: usize = 0;
    while i < u.fields.len()
        invariant
            i <= u.fields.len(),
            fields.deep_view() == u@.take(i as int),
        decreases u.fields.len() - i,
    {
        let ghost prev = fields.deep_view();
        let name = u.fields[i].0.clone();
        let value = u.fields[i].1.clone();
        fields.push((name, value));
        proof {
            assert(fields.deep_view() =~= prev.push((name@, value@)));
            assert(u@.take(i as int + 1) =~= u@.take(i as int).push(u@[i as int]));
        }
        i = i + 1;
    }
    proof {
        assert(u@.take(u.fields.len() as int) =~= u@);
    }
    let r = User { fields };
    proof {
        assert(r@ =~= u@);
    }
    r
}

/// Resolves a speaker token against the lookup table, synthesizing a
/// record with `name` and `key` fields when the token is unknown.
fn resolve_user(config: &Config, name: &str) -> (u: User)
    ensures
        u@ == resolved_user(config.view(), name@),
{
    let ghost people = config.view();
    let mut j: usize = 0;
    proof {
        assert(people.skip(0) =~= people);
    }
    while j < config.people.len()
        invariant
            j <= config.people.len(),
            people == config.view(),
            lookup_user(people, name@) == lookup_user(people.skip(j as int), name@),
        decreases config.people.len() - j,
    {
        proof {
            assert(people.skip(j as int)[0] == people[j as int]);
            assert(people.skip(j as int).drop_first() =~= people.skip(j as int + 1));
        }
        if str_eq(config.people[j].0.as_str(), name) {
            return copy_user(&config.people[j].1);
        }
        j = j + 1;
    }
    proof {
        assert(people.skip(config.people.len() as int) =~= Seq::<(Seq<char>, UserFields)>::empty());
    }
    let key = String::from_str(name);
    let value = String::from_str(name);
    let name_label = String::from_str("name");
    let key_label = String::from_str("key");
    let u = User { fields: vec![(name_label, key), (key_label, value)] };
    proof {
        assert(u@ =~= seq![("name"@, name@), ("key"@, name@)]);
    }
    u
}

/// Closes an in-progress post, appending it to the output.
fn flush_pending(posts: &mut Vec<ChatlogBlock>, pending: Option<(User, String)>)
    ensures
        final(posts).deep_view() == old(posts).deep_view() + flushed(pending.deep_view()),
{
    let ghost prev = posts.deep_view();
    match pending {
        Some((u, m)) => {
            let ghost b = BlockView::Post { user: u@, message: m@ };
            posts.push(ChatlogBlock::Post { user: u, message: m });
            proof {
                assert(posts.deep_view() =~= prev.push(b));
                assert(prev.push(b) =~= prev + seq![b]);
            }
        },
        None => {
            proof {
                assert(prev + flushed(None) =~= prev);
            }
        },
    }
}

/// Parses a play-script style chat transcript into a list of blocks.
///
/// Each physical line is classified in order: a blank line is ignored; a
/// line starting with `'@'` closes any in-progress post and emits a
/// timestamp block holding the rest of the line, trimmed; a line whose
/// text before the first `": "` is entirely alphanumeric closes any
/// in-progress post and opens a new one for that speaker, seeded with the
/// text after the marker plus a newline; any other line extends the
/// in-progress post with its text plus a newline, or is dropped when no
/// post is in progress. A post still in progress at the end of input is
/// closed.
pub fn parse_posts(config: &Config, input: String) -> (r: Vec<ChatlogBlock>)
    ensures
        r.deep_view() == spec_parse_posts(config.view(), input@),
{
    let ghost people = config.view();
    let ghost ls = spec_lines(input@);
    let lines = split_lines(input.as_str());
    let mut posts: Vec<ChatlogBlock> = Vec::new();
    let mut pending: Option<(User, String)> = None;
    let mut k: usize = 0;
    proof {
        assert(ls.skip(0) =~= ls);
        assert(posts.deep_view() + parse_lines(people, ls, pending.deep_view()) =~= parse_lines(
            people,
            ls,
            None,
        ));
    }
    while k < lines.len()
        invariant
            k <= lines.len(),
            lines.deep_view() == ls,
            ls == spec_lines(input@),
            people == config.view(),
            posts.deep_view() + parse_lines(people, ls.skip(k as int), pending.deep_view())
                == spec_parse_posts(people, input@),
        decreases lines.len() - k,
    {
        let ghost l = ls[k as int];
        let ghost p0 = pending.deep_view();
        let ghost prev_posts = posts.deep_view();
        let ghost step = line_step(people, p0, l);
        proof {
            assert(ls.skip(k as int)[0] == ls[k as int]);
            assert(ls.skip(k as int).drop_first() =~= ls.skip(k as int + 1));
            assert(parse_lines(people, ls.skip(k as int), p0) == step.0 + parse_lines(
                people,
                ls.skip(k as int + 1),
                step.1,
            ));
        }
        let line: &String = &lines[k];
        proof {
            assert(line@ == lines.deep_view()[k as int]);
        }
        if is_blank_str(line.as_str()) {
            proof {
                assert(step.0 =~= Seq::<BlockView>::empty());
                assert(step.1 == p0);
                assert(prev_posts + (step.0 + parse_lines(people, ls.skip(k as int + 1), step.1))
                    =~= prev_posts + parse_lines(people, ls.skip(k as int + 1), step.1));
            }
        } else {
            proof {
                assert(l.len() > 0) by {
                    if l.len() == 0 {
                        assert(all_whitespace(l));
                    }
                }
            }
            let n = line.as_str().unicode_len();
            if line.as_str().get_char(0) == '@' {
                let p = pending;
                pending = None;
                flush_pending(&mut posts, p);
                let msg = trim_to_string(line.as_str().substring_char(1, n));
                let ghost mid_posts = posts.deep_view();
                posts.push(ChatlogBlock::Timestamp { message: msg });
                proof {
                    assert(l.drop_first() =~= l.subrange(1, n as int));
                    let ghost ts = BlockView::Timestamp { message: spec_trim(l.drop_first()) };
                    assert(posts.deep_view() =~= mid_posts.push(ts));
                    assert(step.0 =~= flushed(p0) + seq![ts]);
                    assert(step.1 == PendingPost::None);
                    assert(posts.deep_view() =~= prev_posts + step.0);
                    assert((prev_posts + step.0) + parse_lines(
                        people,
                        ls.skip(k as int + 1),
                        step.1,
                    ) =~= prev_posts + (step.0 + parse_lines(people, ls.skip(k as int + 1), step.1)));
                }
            } else {
                let mut was_speaker = false;
                match find_colon_space(line.as_str()) {
                    Some(i) => {
                        proof {
                            lemma_find_marker_in_range(l, 0);
                        }
                        let name_s = line.as_str().substring_char(0, i);
                        proof {
                            assert(name_s@ =~= l.take(i as int));
                        }
                        if is_all_alphanumeric(name_s) {
                            was_speaker = true;
                            let p = pending;
                            flush_pending(&mut posts, p);
                            let user = resolve_user(config, name_s);
                            let mut msg = line.as_str().substring_char(i + 2, n).to_owned();
                            msg.append("\n");
                            pending = Some((user, msg));
                            proof {
                                reveal_strlit("\n");
                                assert("\n"@ =~= seq!['\n']);
                                assert(l.skip(i as int + 2) =~= l.subrange(i as int + 2, n as int));
                                assert(msg@ =~= l.skip(i as int + 2).push('\n'));
                                assert(step.0 == flushed(p0));
                                assert(step.1 == PendingPost::Some(
                                    (resolved_user(people, l.take(i as int)), l.skip(i as int + 2).push('\n')),
                                ));
                                assert(pending.deep_view() == step.1);
                                assert(posts.deep_view() =~= prev_posts + step.0);
                                assert((prev_posts + step.0) + parse_lines(
                                    people,
                                    ls.skip(k as int + 1),
                                    step.1,
                                ) =~= prev_posts + (step.0 + parse_lines(
                                    people,
                                    ls.skip(k as int + 1),
                                    step.1,
                                )));
                            }
                        }
                    },
                    None => {},
                }
                if !was_speaker {
                    proof {
                        assert(!line_is_speaker(l));
                        assert(step.0 =~= Seq::<BlockView>::empty());
                        assert(step.1 == continued(p0, l));
                        assert(prev_posts + (step.0 + parse_lines(
                            people,
                            ls.skip(k as int + 1),
                            step.1,
                        )) =~= prev_posts + parse_lines(people, ls.skip(k as int + 1), step.1));
                    }
                    pending = match pending {
                        Some((u, m)) => {
                            let mut m2 = m;
                            m2.append(line.as_str());
                            m2.append("\n");
                            proof {
                                reveal_strlit("\n");
                                assert("\n"@ =~= seq!['\n']);
                                assert(m2@ =~= p0->Some_0.1 + l.push('\n'));
                            }
                            Some((u, m2))
                        },
                        None => None,
                    };
                    proof {
                        assert(pending.deep_view() == step.1);
                    }
                }
            }
        }
        k = k + 1;
    }
    proof {
        assert(ls.skip(lines.len() as int) =~= Seq::<Seq<char>>::empty());
    }
    let p = pending;
    flush_pending(&mut posts, p);
    posts
}

/// A post block holds at least one line, each line ending in a newline;
/// in particular its message is never empty.
pub open spec fn post_never_empty(b: BlockView) -> bool {
    match b {
        BlockView::Post { user, message } => message.len() > 0 && message.last() == '\n',
        BlockView::Timestamp { message } => true,
    }
}

/// An in-progress post, too, always holds a non-empty newline-terminated
/// message.
spec fn pending_never_empty(p: PendingPost) -> bool {
    match p {
        Some((u, m)) => m.len() > 0 && m.last() == '\n',
        None => true,
    }
}

/// Law: every post block the parser emits has a non-empty message whose
/// last character is a newline.
pub proof fn lemma_posts_never_empty(people: PeopleTable, input: Seq<char>)
    ensures
        forall|j: int|
            0 <= j < spec_parse_posts(people, input).len() ==> post_never_empty(
                #[trigger] spec_parse_posts(people, input)[j],
            ),
{
    lemma_parse_lines_posts_never_empty(people, spec_lines(input), None);
}

/// Scanning from a well-formed in-progress post only emits well-formed
/// blocks.
proof fn lemma_parse_lines_posts_never_empty(people: PeopleTable, ls: Seq<Seq<char>>, p: PendingPost)
    requires
        pending_never_empty(p),
    ensures
        forall|j: int|
            0 <= j < parse_lines(people, ls, p).len() ==> post_never_empty(
                #[trigger] parse_lines(people, ls, p)[j],
            ),
    decreases ls.len(),
{
    if ls.len() == 0 {
    } else {
        let l = ls[0];
        let step = line_step(people, p, l);
        assert(pending_never_empty(step.1)) by {
            if !all_whitespace(l) && !line_is_timestamp(l) {
                match speaker_name_end(l) {
                    Some(i) => {
                        if all_alphanumeric(l.take(i)) {
                            assert(l.skip(i + 2).push('\n').last() == '\n');
                        } else {
                            match p {
                                Some((u, m)) => {
                                    assert((m + l.push('\n')).last() == '\n');
                                },
                                None => {},
                            }
                        }
                    },
                    None => {
                        match p {
                            Some((u, m)) => {
                                assert((m + l.push('\n')).last() == '\n');
                            },
                            None => {},
                        }
                    },
                }
            }
        }
        assert(forall|j: int|
            0 <= j < flushed(p).len() ==> post_never_empty(#[trigger] flushed(p)[j]));
        assert(forall|j: int|
            0 <= j < step.0.len() ==> post_never_empty(#[trigger] step.0[j]));
        lemma_parse_lines_posts_never_empty(people, ls.drop_first(), step.1);
        let rest = parse_lines(people, ls.drop_first(), step.1);
        assert(parse_lines(people, ls, p) == step.0 + rest);
        assert forall|j: int| 0 <= j < parse_lines(people, ls, p).len() implies post_never_empty(
            parse_lines(people, ls, p)[j],
        ) by {
            if j < step.0.len() {
                assert(parse_lines(people, ls, p)[j] == step.0[j]);
            } else {
                assert(parse_lines(people, ls, p)[j] == rest[j - step.0.len()]);
            }
        }
    }
}

/// Law: an input consisting only of blank lines parses to no blocks at
/// all.
pub proof fn lemma_blank_lines_parse_empty(people: PeopleTable, input: Seq<char>)
    requires
        forall|j: int|
            0 <= j < spec_lines(input).len() ==> all_whitespace(#[trigger] spec_lines(input)[j]),
    ensures
        spec_parse_posts(people, input) == Seq::<BlockView>::empty(),
{
    lemma_blank_parse_lines(people, spec_lines(input));
}

/// Law: with no post in progress, lines that are neither timestamp lines
/// nor speaker lines are dropped: an input with no such marker parses to
/// no blocks at all.
pub proof fn lemma_unmarked_lines_parse_empty(people: PeopleTable, input: Seq<char>)
    requires
        forall|j: int|
            0 <= j < spec_lines(input).len() ==> !line_is_timestamp(
                #[trigger] spec_lines(input)[j],
            ) && !line_is_speaker(spec_lines(input)[j]),
    ensures
        spec_parse_posts(people, input) == Seq::<BlockView>::empty(),
{
    lemma_unmarked_parse_lines(people, spec_lines(input));
}

/// Unmarked lines neither emit blocks nor open a post.
proof fn lemma_unmarked_parse_lines(people: PeopleTable, ls: Seq<Seq<char>>)
    requires
        forall|j: int|
            0 <= j < ls.len() ==> !line_is_timestamp(#[trigger] ls[j]) && !line_is_speaker(ls[j]),
    ensures
        parse_lines(people, ls, None) == Seq::<BlockView>::empty(),
    decreases ls.len(),
{
    if ls.len() == 0 {
        assert(parse_lines(people, ls, None) =~= Seq::<BlockView>::empty());
    } else {
        assert(!line_is_timestamp(ls[0]) && !line_is_speaker(ls[0]));
        assert(forall|j: int|
            0 <= j < ls.drop_first().len() ==> !line_is_timestamp(#[trigger] ls.drop_first()[j])
                && !line_is_speaker(ls.drop_first()[j]));
        lemma_unmarked_parse_lines(people, ls.drop_first());
        assert(line_step(people, None, ls[0]).1 is None);
        assert(parse_lines(people, ls, None) =~= Seq::<BlockView>::empty());
    }
}

/// Blank lines neither emit blocks nor open a post.
proof fn lemma_blank_parse_lines(people: PeopleTable, ls: Seq<Seq<char>>)
    requires
        forall|j: int| 0 <= j < ls.len() ==> all_whitespace(#[trigger] ls[j]),
    ensures
        parse_lines(people, ls, None) == Seq::<BlockView>::empty(),
    decreases ls.len(),
{
    if ls.len() == 0 {
        assert(parse_lines(people, ls, None) =~= Seq::<BlockView>::empty());
    } else {
        assert(all_whitespace(ls[0]));
        assert(forall|j: int|
            0 <= j < ls.drop_first().len() ==> all_whitespace(#[trigger] ls.drop_first()[j]));
        lemma_blank_parse_lines(people, ls.drop_first());
        assert(parse_lines(people, ls, None) =~= Seq::<BlockView>::empty());
    }
}

} // verus!
