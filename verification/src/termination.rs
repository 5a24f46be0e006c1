//! The last message of a container.

use vstd::prelude::*;
use vstd::string::StringSliceAdditionalSpecFns;
use vstd::utf8;

use crate::mounts;
use crate::resources::Container;
use crate::runtime::ContainerRuntime;
use crate::text;

verus! {

/// The longest message, in bytes.
pub const MAX_MESSAGE: usize = 4096;

/// How many lines of the log stand in for a missing message.
pub const FALLBACK_LINES: usize = 80;

/// Whether a message can be cut: it is no longer than the longest one, or a
/// character ends there.
pub open spec fn can_cut(s: Seq<char>) -> bool {
    let bytes = utf8::encode_utf8(s);
    bytes.len() <= MAX_MESSAGE || utf8::is_char_boundary(bytes, MAX_MESSAGE as int)
}

/// The first 4096 bytes of a message.
pub open spec fn cut(s: Seq<char>) -> Seq<char> {
    let bytes = utf8::encode_utf8(s);
    if bytes.len() <= MAX_MESSAGE {
        s
    } else {
        utf8::decode_utf8(bytes.take(MAX_MESSAGE as int))
    }
}

/// Cuts a message to 4096 bytes.
pub fn cut_message(s: &str) -> (r: String)
    requires
        can_cut(s@),
    ensures
        r@ == cut(s@),
{
    if text::byte_len(s) > MAX_MESSAGE {
        let (head, _) = s.split_at(MAX_MESSAGE);
        proof {
            utf8::encode_utf8_decode_utf8(head@);
            assert(s.spec_bytes().subrange(0, MAX_MESSAGE as int) =~= s.spec_bytes().take(
                MAX_MESSAGE as int,
            ));
        }
        head.to_owned()
    } else {
        s.to_owned()
    }
}

/// Whether a message can be handed to [`cut_message`].
pub fn message_can_be_cut(s: &str) -> (r: bool)
    ensures
        r == can_cut(s@),
{
    text::byte_len(s) <= MAX_MESSAGE || s.is_char_boundary(MAX_MESSAGE)
}

/// What is done next to find the last message of a container.
#[derive(Debug, Clone, PartialEq)]
pub enum MessageStep {
    /// It is found, or there is none.
    Found(Option<String>),
    /// The file is copied out of the container.
    CopyFile,
    /// The end of the log is read.
    ReadLogs,
}

/// What is done next, as texts.
#[verifier::ext_equal]
pub enum MessageView {
    Found(Option<Seq<char>>),
    CopyFile,
    ReadLogs,
}

impl View for MessageStep {
    type V = MessageView;

    open spec fn view(&self) -> MessageView {
        match *self {
            MessageStep::Found(m) => MessageView::Found(text::opt_text(m)),
            MessageStep::CopyFile => MessageView::CopyFile,
            MessageStep::ReadLogs => MessageView::ReadLogs,
        }
    }
}

/// What is done where no message was left: the log stands in for it where the
/// container asks for that and has failed.
pub open spec fn without_message(c: Container, exit_code: i64) -> MessageView {
    if text::opt_text(c.termination_message_policy) == Some("FallbackToLogsOnError"@) && exit_code
        != 0 {
        MessageView::ReadLogs
    } else {
        MessageView::Found(None)
    }
}

fn no_message(c: &Container, exit_code: i64) -> (r: MessageStep)
    ensures
        r@ == without_message(*c, exit_code),
{
    if text::opt_is(&c.termination_message_policy, "FallbackToLogsOnError") && exit_code != 0 {
        MessageStep::ReadLogs
    } else {
        MessageStep::Found(None)
    }
}

/// The name of the pod in the name of a container: what stands before the last
/// underscore.
pub open spec fn pod_before(name: Seq<char>) -> Seq<char> {
    match text::last_char_index(name, '_') {
        Some(i) => name.take(i),
        None => name,
    }
}

/// The name of the pod in the name of a container: what stands before the last
/// underscore.
pub fn pod_before_container(name: &str) -> (r: String)
    ensures
        r@ == pod_before(name@),
{
    let v = text::chars_of(name);
    match text::rfind_char(&v, '_') {
        Some(i) => name.substring_char(0, i).to_owned(),
        None => name.to_owned(),
    }
}

impl ContainerRuntime {
    /// The file on the node that may hold the last message of a container.
    pub fn message_file(&self, container_name: &str, c: &Container) -> (r: String)
        ensures
            r@ == mounts::termination_file(
                self.volumes_base_path@,
                pod_before(container_name@),
                c.name@,
            ),
    {
        let pod_name = pod_before_container(container_name);
        self.termination_file_path(pod_name.as_str(), c.name.as_str())
    }
}

/// What follows after the file on the node was read. The file is the last word
/// where it is there: only without it the one in the container is read.
/// `content` is `None` where the file could not be read.
pub fn message_after_file(
    c: &Container,
    exit_code: i64,
    there: bool,
    content: &Option<String>,
) -> (r: MessageStep)
    requires
        there && *content is Some ==> can_cut(content->0@),
    ensures
        r@ == if !there {
            MessageView::CopyFile
        } else if *content is Some && content->0@.len() > 0 {
            MessageView::Found(Some(cut(content->0@)))
        } else {
            without_message(*c, exit_code)
        },
{
    if !there {
        return MessageStep::CopyFile;
    }
    if let Some(m) = content {
        if m.as_str().unicode_len() > 0 {
            return MessageStep::Found(Some(cut_message(m.as_str())));
        }
    }
    no_message(c, exit_code)
}

/// The text of a member of a tar archive, as [`tar::Archive::entries`] gives
/// it: the outer `None` behind the last member that can be reached, the inner
/// one where the content is no text.
pub uninterp spec fn tar_member(bytes: Seq<u8>, k: int) -> Option<Option<Seq<char>>>;

/// The model of a member of an archive.
pub open spec fn opt_member(m: Option<Option<String>>) -> Option<Option<Seq<char>>> {
    match m {
        Some(t) => Some(text::opt_text(t)),
        None => None,
    }
}

/// Whether a header of a sparse file stands at the given place of an archive:
/// its type is `S`, and its format is that of GNU tar.
pub open spec fn is_sparse_at(bytes: Seq<u8>, at: int) -> bool {
    bytes[at + 156] == 83 && bytes.subrange(at + 257, at + 265) == seq![
        117u8,
        115,
        116,
        97,
        114,
        32,
        32,
        0,
    ]
}

/// Whether one of the blocks of 512 bytes of an archive can be read as the
/// header of a sparse file.
pub open spec fn holds_sparse(bytes: Seq<u8>) -> bool {
    exists|k: int| 0 <= k && 512 * (k + 1) <= bytes.len() && #[trigger] is_sparse_at(bytes, 512 * k)
}

/// Calls [`tar::Archive::entries`] and reads one member: what it gives is a
/// function of the bytes and of the place of the member, and each member takes
/// a header of 512 bytes at least. The map of a sparse file can make it count
/// beyond the largest number, or fill up the memory with zeros, so that an
/// archive that may hold one is left out.
#[verifier::external_body]
pub(crate) fn read_tar_member(bytes: &Vec<u8>, k: usize) -> (r: Option<Option<String>>)
    requires
        !holds_sparse(bytes@),
    ensures
        opt_member(r) == tar_member(bytes@, k as int),
        r is Some ==> 512 * (k + 1) <= bytes@.len(),
{
    let mut archive = tar::Archive::new(&bytes[..]);
    let mut entry = archive.entries().ok()?.nth(k)?.ok()?;
    let mut content = String::new();
    Some(std::io::Read::read_to_string(&mut entry, &mut content).ok().map(|_| content))
}

/// The first member of an archive, from the given one on, that holds a text.
pub open spec fn first_text(bytes: Seq<u8>, from: int) -> Option<Seq<char>>
    decreases bytes.len() - 512 * from,
{
    if from < 0 || 512 * (from + 1) > bytes.len() {
        None
    } else {
        match tar_member(bytes, from) {
            Some(Some(t)) => if t.len() > 0 {
                Some(t)
            } else {
                first_text(bytes, from + 1)
            },
            Some(None) => first_text(bytes, from + 1),
            None => None,
        }
    }
}

fn sparse_at(bytes: &Vec<u8>, at: usize) -> (r: bool)
    requires
        at + 512 <= bytes@.len(),
    ensures
        r == is_sparse_at(bytes@, at as int),
{
    let n: usize = bytes.len();
    assert(at + 512 <= n);
    let r = bytes[at + 156] == 83 && bytes[at + 257] == 117 && bytes[at + 258] == 115 && bytes[at
        + 259] == 116 && bytes[at + 260] == 97 && bytes[at + 261] == 114 && bytes[at + 262] == 32
        && bytes[at + 263] == 32 && bytes[at + 264] == 0;
    proof {
        let part = bytes@.subrange(at + 257, at + 265);
        let magic = seq![117u8, 115, 116, 97, 114, 32, 32, 0];
        assert(part[0] == bytes@[at + 257]);
        assert(part[1] == bytes@[at + 258]);
        assert(part[2] == bytes@[at + 259]);
        assert(part[3] == bytes@[at + 260]);
        assert(part[4] == bytes@[at + 261]);
        assert(part[5] == bytes@[at + 262]);
        assert(part[6] == bytes@[at + 263]);
        assert(part[7] == bytes@[at + 264]);
        if r {
            assert(part =~= magic);
        }
    }
    r
}

/// Whether one of the blocks of an archive can be read as the header of a
/// sparse file.
pub fn may_hold_sparse(bytes: &Vec<u8>) -> (r: bool)
    ensures
        r == holds_sparse(bytes@),
{
    let n: usize = bytes.len();
    let blocks: usize = n / 512;
    let mut k: usize = 0;
    while k < blocks
        invariant
            k <= blocks,
            n == bytes@.len(),
            blocks == n / 512,
            forall|j: int| 0 <= j < k ==> !#[trigger] is_sparse_at(bytes@, 512 * j),
        decreases blocks - k,
    {
        if sparse_at(bytes, 512 * k) {
            assert(is_sparse_at(bytes@, 512 * k as int));
            return true;
        }
        k = k + 1;
    }
    false
}

/// The first text in an archive. One that may hold a sparse file is not read.
pub open spec fn text_of_archive(bytes: Seq<u8>) -> Option<Seq<char>> {
    if holds_sparse(bytes) {
        None
    } else {
        first_text(bytes, 0)
    }
}

/// The first text in an archive that was copied out of a container. One that
/// may hold a sparse file is not read, and gives none.
pub fn archived_text(bytes: &Vec<u8>) -> (r: Option<String>)
    ensures
        text::opt_text(r) == text_of_archive(bytes@),
{
    if may_hold_sparse(bytes) {
        return None;
    }
    let mut k: usize = 0;
    while k <= bytes.len() / 512
        invariant
            !holds_sparse(bytes@),
            k <= bytes@.len() / 512 + 1,
            first_text(bytes@, 0) == first_text(bytes@, k as int),
        decreases bytes@.len() / 512 + 1 - k,
    {
        match read_tar_member(bytes, k) {
            Some(Some(t)) => {
                if t.as_str().unicode_len() > 0 {
                    return Some(t);
                }
            },
            Some(None) => {},
            None => {
                return None;
            },
        }
        k = k + 1;
    }
    None
}

/// What follows after a copied file was unpacked: its text, if there is one, is
/// the message.
pub fn message_of_text(c: &Container, exit_code: i64, found: &Option<String>) -> (r: MessageStep)
    requires
        *found is Some ==> can_cut(found->0@),
    ensures
        r@ == match *found {
            Some(t) => MessageView::Found(Some(cut(t@))),
            None => without_message(*c, exit_code),
        },
{
    match found {
        Some(t) => MessageStep::Found(Some(cut_message(t.as_str()))),
        None => no_message(c, exit_code),
    }
}

/// What follows after the file was copied out of the container as an archive;
/// nothing was copied where `copied` is `None`. The result is `None` where the
/// text that is found cannot be cut.
pub fn message_after_copy(c: &Container, exit_code: i64, copied: &Option<Vec<u8>>) -> (r: Option<
    MessageStep,
>)
    ensures
        ({
            let found = match *copied {
                Some(b) => text_of_archive(b@),
                None => None,
            };
            &&& r is Some <==> (found is Some ==> can_cut(found->0))
            &&& r is Some ==> r->0@ == match found {
                Some(t) => MessageView::Found(Some(cut(t))),
                None => without_message(*c, exit_code),
            }
        }),
{
    let found = match copied {
        Some(b) => archived_text(b),
        None => None,
    };
    if let Some(t) = &found {
        if !message_can_be_cut(t.as_str()) {
            return None;
        }
    }
    Some(message_of_text(c, exit_code, &found))
}

/// The message made of the end of a log.
pub fn message_of_logs(output: &str) -> (r: Option<String>)
    requires
        can_cut(output@),
    ensures
        text::opt_text(r) == if output@.len() == 0 {
            None
        } else {
            Some(cut(output@))
        },
{
    if output.unicode_len() == 0 {
        None
    } else {
        Some(cut_message(output))
    }
}

/// What came of a step to find the last message of a container.
#[derive(Debug, Clone, PartialEq)]
pub enum MessageEvent {
    /// The file on the node was looked for: whether it is there, and its
    /// content, if it could be read.
    FileRead { there: bool, content: Option<String> },
    /// The file was copied out of the container as an archive, or could not be.
    Copied(Option<Vec<u8>>),
    /// The end of the log.
    LogsRead(String),
}

/// The text that an event brings, where it is not empty.
pub open spec fn text_in(e: MessageEvent) -> Option<Seq<char>> {
    match e {
        MessageEvent::FileRead { there, content } => if there && content is Some
            && content->0@.len() > 0 {
            Some(content->0@)
        } else {
            None
        },
        MessageEvent::Copied(copied) => match copied {
            Some(b) => text_of_archive(b@),
            None => None,
        },
        MessageEvent::LogsRead(output) => if output@.len() > 0 {
            Some(output@)
        } else {
            None
        },
    }
}

/// What follows after an event: a text is the message, cut to its limit; a
/// file that is not there is copied out of the container; without a text the
/// log stands in for it, where the policy says so.
pub open spec fn message_next(c: Container, exit_code: i64, e: MessageEvent) -> MessageView {
    match text_in(e) {
        Some(t) => MessageView::Found(Some(cut(t))),
        None => match e {
            MessageEvent::FileRead { there, .. } => if there {
                without_message(c, exit_code)
            } else {
                MessageView::CopyFile
            },
            MessageEvent::Copied(_) => without_message(c, exit_code),
            MessageEvent::LogsRead(_) => MessageView::Found(None),
        },
    }
}

impl ContainerRuntime {
    /// The next step in reading the last message of a container, after an event.
    /// The result is `None` where a text was found that cannot be cut.
    pub fn read_termination_message(&self, c: &Container, exit_code: i64, event: &MessageEvent) -> (r: Option<
        MessageStep,
    >)
        ensures
            r is Some <==> (text_in(*event) is Some ==> can_cut(text_in(*event)->0)),
            r is Some ==> r->0@ == message_next(*c, exit_code, *event),
    {
        match event {
            MessageEvent::FileRead { there, content } => {
                if *there {
                    if let Some(m) = content {
                        if m.as_str().unicode_len() > 0 && !message_can_be_cut(m.as_str()) {
                            return None;
                        }
                        proof {
                            if m@.len() == 0 {
                                lemma_empty_can_be_cut(m@);
                            }
                        }
                    }
                }
                Some(message_after_file(c, exit_code, *there, content))
            },
            MessageEvent::Copied(copied) => message_after_copy(c, exit_code, copied),
            MessageEvent::LogsRead(output) => {
                if output.as_str().unicode_len() == 0 {
                    Some(MessageStep::Found(None))
                } else if message_can_be_cut(output.as_str()) {
                    Some(MessageStep::Found(message_of_logs(output.as_str())))
                } else {
                    None
                }
            },
        }
    }
}

proof fn lemma_empty_can_be_cut(s: Seq<char>)
    requires
        s.len() == 0,
    ensures
        can_cut(s),
{
    reveal_with_fuel(utf8::encode_utf8, 1);
}

// ---------------------------------------------------------------------------
// Laws
// ---------------------------------------------------------------------------

/// A message is at most 4096 bytes long.
pub proof fn law_message_fits(s: Seq<char>)
    requires
        can_cut(s),
    ensures
        utf8::encode_utf8(cut(s)).len() <= MAX_MESSAGE,
{
    let bytes = utf8::encode_utf8(s);
    if bytes.len() > MAX_MESSAGE {
        let head = bytes.take(MAX_MESSAGE as int);
        assert(utf8::valid_utf8(head)) by {
            utf8::encode_utf8_valid_utf8(s);
            assert(bytes.subrange(0, MAX_MESSAGE as int) =~= head);
            utf8::valid_utf8_split(bytes, MAX_MESSAGE as int);
        }
        utf8::decode_utf8_encode_utf8(head);
    }
}

/// The log of a container that has succeeded never stands in for its message.
pub proof fn law_success_needs_no_log(c: Container)
    ensures
        without_message(c, 0) == MessageView::Found(None),
{
}

/// A message that fits is kept whole, and of a longer one its beginning is kept,
/// as far as it fits.
pub proof fn law_message_is_kept_from_its_beginning(s: Seq<char>)
    requires
        can_cut(s),
    ensures
        utf8::encode_utf8(s).len() <= 4096 ==> cut(s) == s,
        utf8::encode_utf8(s).len() > 4096 ==> utf8::encode_utf8(cut(s)) == utf8::encode_utf8(
            s,
        ).take(4096),
{
    let bytes = utf8::encode_utf8(s);
    if bytes.len() > 4096 {
        utf8::encode_utf8_valid_utf8(s);
        utf8::valid_utf8_split(bytes, 4096);
        utf8::decode_utf8_encode_utf8(bytes.take(4096));
    }
}

/// What the container wrote itself is its message, whatever its policy and its
/// exit code: the file first, then what is copied out of it.
pub proof fn law_own_words_come_first(c: Container, exit_code: i64, text: String)
    requires
        text@.len() > 0,
    ensures
        message_next(
            c,
            exit_code,
            MessageEvent::FileRead { there: true, content: Some(text) },
        ) == MessageView::Found(Some(cut(text@))),
        message_next(c, exit_code, MessageEvent::LogsRead(text)) == MessageView::Found(
            Some(cut(text@)),
        ),
{
}

/// A file that is not there is copied out of the container; the log is read where
/// the container failed without a word, and only where it asked for that.
pub proof fn law_log_is_read_for_a_silent_failure(c: Container, exit_code: i64, e: MessageEvent)
    requires
        text_in(e) is None,
        !(e is LogsRead),
    ensures
        e is FileRead && !e->there ==> message_next(c, exit_code, e) is CopyFile,
        (e is Copied || e->there) && exit_code != 0 && c.termination_message_policy is Some
            && c.termination_message_policy->0@ == "FallbackToLogsOnError"@ ==> message_next(
            c,
            exit_code,
            e,
        ) is ReadLogs,
        (e is Copied || e->there) && (exit_code == 0 || c.termination_message_policy is None)
            ==> message_next(c, exit_code, e) == MessageView::Found(None),
        message_next(c, exit_code, MessageEvent::Copied(None)) is ReadLogs ==> exit_code != 0,
{
}

/// An empty log gives no message, and ends the search.
pub proof fn law_search_ends_at_the_log(c: Container, exit_code: i64, output: String)
    ensures
        message_next(c, exit_code, MessageEvent::LogsRead(output)) is Found,
        output@.len() == 0 ==> message_next(c, exit_code, MessageEvent::LogsRead(output))
            == MessageView::Found(None),
{
}

/// Of an archive the first member that holds a text counts.
pub proof fn law_first_text_in_an_archive_counts(bytes: Seq<u8>, k: int, t: Seq<char>)
    requires
        !holds_sparse(bytes),
        0 <= k,
        512 * (k + 1) <= bytes.len(),
        tar_member(bytes, k) == Some(Some(t)),
        t.len() > 0,
        forall|j: int|
            0 <= j < k ==> (#[trigger] tar_member(bytes, j)) is Some && (tar_member(bytes, j)->0 is None
                || tar_member(bytes, j)->0->0.len() == 0),
    ensures
        text_of_archive(bytes) == Some(t),
{
    lemma_first_text(bytes, 0, k, t);
}

proof fn lemma_first_text(bytes: Seq<u8>, from: int, k: int, t: Seq<char>)
    requires
        0 <= from <= k,
        512 * (k + 1) <= bytes.len(),
        tar_member(bytes, k) == Some(Some(t)),
        t.len() > 0,
        forall|j: int|
            0 <= j < k ==> (#[trigger] tar_member(bytes, j)) is Some && (tar_member(bytes, j)->0 is None
                || tar_member(bytes, j)->0->0.len() == 0),
    ensures
        first_text(bytes, from) == Some(t),
    decreases k - from,
{
    if from < k {
        assert(tar_member(bytes, from) is Some);
        lemma_first_text(bytes, from + 1, k, t);
    }
}

/// The pod of a container is named in front of the last underscore.
pub proof fn law_pod_stands_before_the_last_underscore(pod: Seq<char>, name: Seq<char>)
    requires
        !name.contains('_'),
    ensures
        pod_before(pod + "_"@ + name) == pod,
{
    reveal_strlit("_");
    let full = pod + "_"@ + name;
    assert(full.skip(pod.len() as int + 1) =~= name);
    lemma_last_underscore(full, pod.len() as int, name);
    assert(full.take(pod.len() as int) =~= pod);
}

proof fn lemma_last_underscore(s: Seq<char>, at: int, name: Seq<char>)
    requires
        0 <= at < s.len(),
        s[at] == '_',
        s.skip(at + 1) == name,
        !name.contains('_'),
    ensures
        text::last_char_index(s, '_') == Some(at),
    decreases name.len(),
{
    if at < s.len() - 1 {
        assert(name[name.len() - 1] == s[s.len() - 1]);
        assert(name.contains(name[name.len() - 1]));
        assert(s.drop_last().skip(at + 1) =~= name.drop_last());
        assert forall|i: int| 0 <= i < name.drop_last().len() implies name.drop_last()[i]
            != '_' by {
            assert(name.contains(name[i]));
        }
        lemma_last_underscore(s.drop_last(), at, name.drop_last());
    }
}

} // verus!
