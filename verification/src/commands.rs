//! Custom commands of a guild: staff add and remove replies by name, anyone
//! can list them, and a message whose whole text names one gets its reply.
//! Names are stored in lowercase.

use vstd::prelude::*;
use vstd::utf8::{encode_scalar, encode_utf8, has_width_1_encoding};
use crate::strmap::StrMap;
use crate::text::{lowercase, push_char, to_lowercase};

verus! {
broadcast use vstd::slice::group_slice_axioms;
} // verus!

verus! {

/// The replies of a command map, as character sequences.
pub open spec fn replies(m: Map<Seq<char>, String>) -> Map<Seq<char>, Seq<char>> {
    m.map_values(|s: String| s@)
}

/// What adding a command came to.
#[derive(Debug, Clone, Copy, PartialEq, Eq, Structural)]
pub enum NewCommand {
    /// No reply text was given; nothing changed.
    NoContent,
    /// A command of that name exists already; nothing changed.
    Exists,
    /// The command was stored.
    Added,
}

/// Adds the command `name` (stored in lowercase) replying `content`, unless
/// `content` is empty or the name is taken.
pub fn new(cmds: &mut StrMap<String>, name: &str, content: &str) -> (r: NewCommand)
    ensures
        content@.len() == 0 ==> r == NewCommand::NoContent && final(cmds)@ == old(cmds)@,
        content@.len() > 0 && old(cmds)@.contains_key(lowercase(name@))
            ==> r == NewCommand::Exists && final(cmds)@ == old(cmds)@,
        content@.len() > 0 && !old(cmds)@.contains_key(lowercase(name@)) ==> {
            &&& r == NewCommand::Added
            &&& replies(final(cmds)@) == replies(old(cmds)@).insert(lowercase(name@), content@)
        },
{
    if content.is_empty() {
        return NewCommand::NoContent;
    }
    let key = to_lowercase(name);
    if cmds.contains_key(&key) {
        NewCommand::Exists
    } else {
        let ghost k = key@;
        let reply = String::from_str(content);
        cmds.insert(key, reply);
        assert(replies(cmds@) =~= replies(old(cmds)@).insert(k, content@));
        NewCommand::Added
    }
}

/// Removes the command `name` (looked up in lowercase); whether it existed.
pub fn delete(cmds: &mut StrMap<String>, name: &str) -> (removed: bool)
    ensures
        removed == old(cmds)@.contains_key(lowercase(name@)),
        final(cmds)@ == old(cmds)@.remove(lowercase(name@)),
{
    let key = to_lowercase(name);
    cmds.remove(&key).is_some()
}

/// The reply to a message whose text, in lowercase, names a command.
pub fn reply(cmds: &StrMap<String>, content: &str) -> (r: Option<String>)
    ensures
        match r {
            Some(v) => cmds@.contains_key(lowercase(content@)) && v@ == cmds@[lowercase(content@)]@,
            None => !cmds@.contains_key(lowercase(content@)),
        },
{
    let key = to_lowercase(content);
    match cmds.get(&key) {
        Some(v) => Some(v.clone()),
        None => None,
    }
}

/// The length of a text in UTF-8 bytes.
pub open spec fn byte_len(s: Seq<char>) -> nat {
    encode_utf8(s).len()
}

/// A page of the command list stays under this many bytes, unless one name
/// alone is longer.
pub const PAGE_BYTES: usize = 2000;

/// The pages of the command list: names one per line, in order; a name
/// starts a new page when the current page and the name together would reach
/// `PAGE_BYTES`. There is always at least one page.
pub open spec fn paginate(keys: Seq<Seq<char>>) -> Seq<Seq<char>>
    decreases keys.len(),
{
    if keys.len() == 0 {
        seq![Seq::<char>::empty()]
    } else {
        let pages = paginate(keys.drop_last());
        let key = keys.last();
        let cur = pages.last();
        if byte_len(cur) + byte_len(key) >= PAGE_BYTES {
            pages.push(key.push('\n'))
        } else {
            pages.update(pages.len() - 1, cur + key.push('\n'))
        }
    }
}

proof fn lemma_paginate_nonempty(keys: Seq<Seq<char>>)
    ensures
        paginate(keys).len() >= 1,
    decreases keys.len(),
{
    if keys.len() > 0 {
        lemma_paginate_nonempty(keys.drop_last());
    }
}

/// The page that a request for page `requested` shows: counted from 1,
/// below 1 is the first page and past the end is the last.
pub open spec fn shown_page(requested: u64, pages: int) -> int {
    let p = requested as usize as int;
    let p = if p < 1 { 1 } else { p };
    if p > pages { pages } else { p }
}

/// A page of the command list.
pub struct CommandList {
    /// The page shown, counted from 1.
    pub page: usize,
    /// How many pages there are.
    pub pages: usize,
    /// The names on the page, one per line.
    pub text: String,
}

/// Pages of the names of `cmds`, and the one that a request for page
/// `requested` shows.
pub fn list(cmds: &StrMap<String>, requested: u64) -> (r: CommandList)
    ensures
        r.pages == paginate(cmds.key_seq()).len(),
        r.page == shown_page(requested, r.pages as int),
        r.text@ == paginate(cmds.key_seq())[r.page - 1],
        1 <= requested <= r.pages ==> r.page == requested,
        requested == 0 ==> r.page == 1,
{
    let keys = cmds.keys();
    let ghost ks = cmds.key_seq();
    let mut pages: Vec<String> = Vec::new();
    pages.push(String::new());
    let mut i: usize = 0;
    proof { lemma_paginate_nonempty(ks.take(0)); }
    assert(ks.take(0) =~= Seq::<Seq<char>>::empty());
    while i < keys.len()
        invariant
            i <= keys@.len(),
            keys@.map_values(|s: String| s@) == ks,
            pages@.len() >= 1,
            pages@.map_values(|s: String| s@) == paginate(ks.take(i as int)),
        decreases keys.len() - i,
    {
        let ghost before = paginate(ks.take(i as int));
        assert(ks.take(i + 1).drop_last() =~= ks.take(i as int));
        let key = &keys[i];
        assert(key@ == ks[i as int]);
        assert(ks.take(i + 1).last() == ks[i as int]);
        let ghost pv = pages@.map_values(|s: String| s@);
        let ghost old_pages = pages@;
        let mut cur = pages.pop().unwrap();
        assert(cur@ == before.last());
        let cur_len = cur.as_str().as_bytes().len();
        let key_len = key.as_str().as_bytes().len();
        if key_len >= PAGE_BYTES || cur_len >= PAGE_BYTES - key_len {
            pages.push(cur);
            let mut next = String::new();
            next.append(key.as_str());
            push_char(&mut next, '\n');
            pages.push(next);
            assert(pages@ =~= old_pages.push(next));
            assert(pages@.map_values(|s: String| s@) =~= pv.push(key@.push('\n')));
            assert(paginate(ks.take(i + 1)) == before.push(key@.push('\n')));
        } else {
            cur.append(key.as_str());
            push_char(&mut cur, '\n');
            pages.push(cur);
            assert(pages@ =~= old_pages.update(old_pages.len() - 1, cur));
            assert(pages@.map_values(|s: String| s@) =~= pv.update(pv.len() - 1, before.last() + key@.push('\n')));
            assert(paginate(ks.take(i + 1)) == before.update(before.len() - 1, before.last() + key@.push('\n')));
        }
        i = i + 1;
        assert(pages@.map_values(|s: String| s@) =~= paginate(ks.take(i as int)));
    }
    assert(ks.take(i as int) =~= ks);
    let n = pages.len();
    let mut page = #[verifier::truncate] (requested as usize);
    if page < 1 {
        page = 1;
    }
    if page > n {
        page = n;
    }
    let text = pages[page - 1].clone();
    assert(text@ == pages@.map_values(|s: String| s@)[page - 1]);
    CommandList { page, pages: n, text }
}

/// Once a command is added, a message naming it in any letter case gets its
/// reply.
pub proof fn law_added_command_replies(
    before: Map<Seq<char>, String>,
    after: Map<Seq<char>, String>,
    name: Seq<char>,
    content: Seq<char>,
    message: Seq<char>,
)
    requires
        replies(after) == replies(before).insert(lowercase(name), content),
        lowercase(message) == lowercase(name),
    ensures
        after.contains_key(lowercase(message)),
        after[lowercase(message)]@ == content,
{
    assert(replies(after).contains_key(lowercase(name)));
    assert(replies(after)[lowercase(name)] == after[lowercase(name)]@);
}

/// Once a command is deleted, no message naming it gets a reply.
pub proof fn law_deleted_command_silent(
    before: Map<Seq<char>, String>,
    after: Map<Seq<char>, String>,
    name: Seq<char>,
    message: Seq<char>,
)
    requires
        after == before.remove(lowercase(name)),
        lowercase(message) == lowercase(name),
    ensures
        !after.contains_key(lowercase(message)),
{
}

/// The names, each followed by a newline, one after another.
pub open spec fn lines(keys: Seq<Seq<char>>) -> Seq<char>
    decreases keys.len(),
{
    if keys.len() == 0 {
        Seq::<char>::empty()
    } else {
        lines(keys.drop_last()) + keys.last().push('\n')
    }
}

/// The pages, one after another.
pub open spec fn joined(pages: Seq<Seq<char>>) -> Seq<char>
    decreases pages.len(),
{
    if pages.len() == 0 {
        Seq::<char>::empty()
    } else {
        joined(pages.drop_last()) + pages.last()
    }
}

/// The pages of the command list hold every name once, in order, one per
/// line: read one after another they are exactly the list of names.
pub proof fn law_pages_hold_all_names(keys: Seq<Seq<char>>)
    ensures
        joined(paginate(keys)) == lines(keys),
    decreases keys.len(),
{
    if keys.len() == 0 {
        let p = seq![Seq::<char>::empty()];
        assert(p.drop_last() =~= Seq::<Seq<char>>::empty());
        assert(joined(p.drop_last()) == Seq::<char>::empty());
        assert(joined(p) =~= Seq::<char>::empty());
    } else {
        let rest = keys.drop_last();
        law_pages_hold_all_names(rest);
        lemma_paginate_nonempty(rest);
        let pages = paginate(rest);
        let key = keys.last();
        let cur = pages.last();
        if byte_len(cur) + byte_len(key) >= PAGE_BYTES {
            assert(pages.push(key.push('\n')).drop_last() =~= pages);
        } else {
            let np = pages.update(pages.len() - 1, cur + key.push('\n'));
            assert(np.drop_last() =~= pages.drop_last());
            assert(pages =~= pages.drop_last().push(cur));
            assert(joined(pages) == joined(pages.drop_last()) + cur);
            assert(joined(np) =~= joined(pages) + key.push('\n'));
        }
    }
}

/// The page shown is always one of the pages.
pub proof fn law_shown_page_exists(requested: u64, pages: int)
    requires
        pages >= 1,
    ensures
        1 <= shown_page(requested, pages) <= pages,
{
}

/// A request for one of the pages shows that very page.
pub proof fn law_shown_page_requested(requested: u64, pages: int)
    requires
        1 <= requested <= pages <= usize::MAX,
    ensures
        shown_page(requested, pages) == requested,
{
}

/// Page `k` was closed only because the next name did not fit: the pages up
/// to `k` hold exactly the first `j` names, and page `k` together with name
/// `j` reaches `PAGE_BYTES`.
pub open spec fn closed_when_full(keys: Seq<Seq<char>>, pages: Seq<Seq<char>>, k: int) -> bool {
    exists|j: int|
        0 <= j < keys.len() && #[trigger] lines(keys.take(j)) == joined(pages.take(k + 1))
            && byte_len(pages[k]) + byte_len(keys[j]) >= PAGE_BYTES
}

proof fn lemma_byte_len_line(cur: Seq<char>, key: Seq<char>)
    ensures
        byte_len(cur + key.push('\n')) == byte_len(cur) + byte_len(key) + 1,
{
    let nl = seq!['\n'];
    assert(key.push('\n') =~= key + nl);
    assert(cur + key.push('\n') =~= (cur + key) + nl);
    crate::text::lemma_encode_utf8_concat(cur + key, nl);
    crate::text::lemma_encode_utf8_concat(cur, key);
    assert(nl.drop_first() =~= Seq::<char>::empty());
    assert(has_width_1_encoding(nl[0] as u32));
    assert(encode_scalar(nl[0] as u32).len() == 1);
    assert(encode_utf8(nl.drop_first()).len() == 0);
    assert(encode_utf8(nl) == encode_scalar(nl[0] as u32) + encode_utf8(nl.drop_first()));
    assert(encode_utf8(nl).len() == 1);
}

/// Pages are filled greedily: a page is closed only when the next name
/// would bring it to `PAGE_BYTES` bytes, so every page but the last, with
/// the first name of the page after it, reaches `PAGE_BYTES`.
pub proof fn law_pages_filled_greedily(keys: Seq<Seq<char>>)
    ensures
        forall|k: int| 0 <= k < paginate(keys).len() - 1 ==> #[trigger] closed_when_full(keys, paginate(keys), k),
    decreases keys.len(),
{
    if keys.len() > 0 {
        let rest = keys.drop_last();
        law_pages_filled_greedily(rest);
        law_pages_hold_all_names(rest);
        lemma_paginate_nonempty(rest);
        let pages = paginate(rest);
        let key = keys.last();
        let all = paginate(keys);
        let opens_page = byte_len(pages.last()) + byte_len(key) >= PAGE_BYTES;
        assert forall|k: int| 0 <= k < all.len() - 1 implies #[trigger] closed_when_full(keys, all, k) by {
            if k < pages.len() - 1 {
                assert(closed_when_full(rest, pages, k));
                let j = choose|j: int|
                    0 <= j < rest.len() && #[trigger] lines(rest.take(j)) == joined(pages.take(k + 1))
                        && byte_len(pages[k]) + byte_len(rest[j]) >= PAGE_BYTES;
                assert(rest.take(j) =~= keys.take(j));
                assert(all.take(k + 1) =~= pages.take(k + 1));
                assert(all[k] == pages[k]);
                assert(keys[j] == rest[j]);
                assert(lines(keys.take(j)) == joined(all.take(k + 1)));
            } else {
                assert(opens_page);
                let j = keys.len() - 1;
                assert(keys.take(j) =~= rest);
                assert(all.take(k + 1) =~= pages);
                assert(all[k] == pages.last());
                assert(keys[j] == key);
                assert(lines(keys.take(j)) == joined(all.take(k + 1)));
            }
        }
    }
}

/// No page holds more than `PAGE_BYTES` bytes, except a page holding one
/// name that is that long by itself.
pub proof fn law_pages_within_limit(keys: Seq<Seq<char>>)
    ensures
        forall|k: int| 0 <= k < paginate(keys).len() ==>
            byte_len(#[trigger] paginate(keys)[k]) <= PAGE_BYTES
                || exists|j: int| 0 <= j < keys.len() && paginate(keys)[k] == #[trigger] keys[j].push('\n'),
    decreases keys.len(),
{
    if keys.len() > 0 {
        let rest = keys.drop_last();
        law_pages_within_limit(rest);
        lemma_paginate_nonempty(rest);
        let pages = paginate(rest);
        let key = keys.last();
        let all = paginate(keys);
        let opens_page = byte_len(pages.last()) + byte_len(key) >= PAGE_BYTES;
        assert forall|k: int| 0 <= k < all.len() implies
            byte_len(#[trigger] all[k]) <= PAGE_BYTES
                || exists|j: int| 0 <= j < keys.len() && all[k] == #[trigger] keys[j].push('\n') by {
            let last = keys.len() - 1;
            assert(keys[last] == key);
            if opens_page && k == pages.len() {
                assert(all[k] == keys[last].push('\n'));
            } else if !opens_page && k == pages.len() - 1 {
                lemma_byte_len_line(pages.last(), key);
            } else {
                assert(all[k] == pages[k]);
                if byte_len(pages[k]) > PAGE_BYTES {
                    let j = choose|j: int| 0 <= j < rest.len() && pages[k] == #[trigger] rest[j].push('\n');
                    assert(keys[j] == rest[j]);
                    assert(all[k] == keys[j].push('\n'));
                }
            }
        }
    }
}

} // verus!
