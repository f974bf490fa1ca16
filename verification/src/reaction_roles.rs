//! Reaction roles: which role a member gets for reacting with which emoji
//! on the roles message, and what a reaction event asks the bot to do.

use vstd::prelude::*;

verus! {

/// The emoji of the archive role.
pub const ARCHIVE_EMOJI: &'static str = "\u{1F4C1}";
/// The emoji of the mobile role.
pub const MOBILE_EMOJI: &'static str = "\u{1F4F1}";
/// The emoji of the systems role.
pub const SYSTEMS_EMOJI: &'static str = "\u{2699}\u{FE0F}";
/// The emoji of the AI role.
pub const AI_EMOJI: &'static str = "\u{1F916}";
/// The emoji of the research role.
pub const RESEARCH_EMOJI: &'static str = "\u{1F4DC}";
/// The emoji of the DevOps role.
pub const DEVOPS_EMOJI: &'static str = "\u{1F680}";
/// The emoji of the web role.
pub const WEB_EMOJI: &'static str = "\u{1F310}";

/// The emoji of a reaction: a custom emoji of a guild, or a Unicode emoji.
#[derive(Clone, Debug)]
pub enum Emoji {
    Custom { animated: bool, id: u64, name: Option<String> },
    Unicode(String),
}

/// What an emoji is, with its text as characters.
pub enum EmojiView {
    Custom { animated: bool, id: u64, name: Option<Seq<char>> },
    Unicode(Seq<char>),
}

impl View for Emoji {
    type V = EmojiView;

    open spec fn view(&self) -> EmojiView {
        match self {
            Emoji::Custom { animated, id, name } => EmojiView::Custom {
                animated: *animated,
                id: *id,
                name: match name {
                    Some(n) => Some(n@),
                    None => None,
                },
            },
            Emoji::Unicode(s) => EmojiView::Unicode(s@),
        }
    }
}

impl Emoji {
    /// The Unicode emoji written `text`.
    pub fn unicode(text: &str) -> (e: Emoji)
        ensures
            e@ == EmojiView::Unicode(text@),
    {
        Emoji::Unicode(String::from_str(text))
    }

    /// Whether two emojis are the same: same kind and equal in every field.
    pub fn same_as(&self, other: &Emoji) -> (same: bool)
        ensures
            same == (self@ == other@),
    {
        match self {
            Emoji::Unicode(a) => match other {
                Emoji::Unicode(b) => *a == *b,
                Emoji::Custom { .. } => false,
            },
            Emoji::Custom { animated: a1, id: i1, name: n1 } => match other {
                Emoji::Unicode(_) => false,
                Emoji::Custom { animated: a2, id: i2, name: n2 } => {
                    if *a1 != *a2 || *i1 != *i2 {
                        return false;
                    }
                    match n1 {
                        Some(x) => match n2 {
                            Some(y) => *x == *y,
                            None => false,
                        },
                        None => n2.is_none(),
                    }
                },
            },
        }
    }
}

/// The map that a list of (emoji, role) entries with distinct emojis stands for.
pub open spec fn entries_map(s: Seq<(Emoji, u64)>) -> Map<EmojiView, u64> {
    Map::new(
        |k: EmojiView| exists|i: int| 0 <= i < s.len() && #[trigger] s[i].0@ == k,
        |k: EmojiView| s[choose|i: int| 0 <= i < s.len() && #[trigger] s[i].0@ == k].1,
    )
}

/// Whether no emoji occurs twice among the entries.
pub open spec fn distinct_keys(s: Seq<(Emoji, u64)>) -> bool {
    forall|i: int, j: int|
        #![trigger s[i], s[j]]
        0 <= i < s.len() && 0 <= j < s.len() && i != j ==> s[i].0@ != s[j].0@
}

proof fn lemma_lookup(s: Seq<(Emoji, u64)>, i: int)
    requires
        distinct_keys(s),
        0 <= i < s.len(),
    ensures
        entries_map(s).contains_key(s[i].0@),
        entries_map(s)[s[i].0@] == s[i].1,
{
    let k = s[i].0@;
    assert(exists|j: int| 0 <= j < s.len() && #[trigger] s[j].0@ == k);
    let c = choose|j: int| 0 <= j < s.len() && #[trigger] s[j].0@ == k;
    if c != i {
        assert(s[c].0@ == s[i].0@);
    }
}

proof fn lemma_absent(s: Seq<(Emoji, u64)>, k: EmojiView)
    requires
        forall|i: int| #![trigger s[i]] 0 <= i < s.len() ==> s[i].0@ != k,
    ensures
        !entries_map(s).contains_key(k),
{
}

/// Replacing the role of an entry keeps the emojis distinct and changes the
/// map at that emoji only.
proof fn lemma_map_after_update(s: Seq<(Emoji, u64)>, i: int, x: (Emoji, u64))
    requires
        distinct_keys(s),
        0 <= i < s.len(),
        x.0@ == s[i].0@,
    ensures
        distinct_keys(s.update(i, x)),
        entries_map(s.update(i, x)) == entries_map(s).insert(x.0@, x.1),
{
    let t = s.update(i, x);
    let k = x.0@;
    assert forall|a: int, b: int|
        #![trigger t[a], t[b]]
        0 <= a < t.len() && 0 <= b < t.len() && a != b implies t[a].0@ != t[b].0@ by {
        assert(s[a].0@ != s[b].0@);
    }
    assert(t[i] == x);
    lemma_same_other_keys(s, t, k, x.1);
}

/// Adding an entry with a new emoji keeps the emojis distinct and adds that
/// emoji to the map.
proof fn lemma_map_after_push(s: Seq<(Emoji, u64)>, x: (Emoji, u64))
    requires
        distinct_keys(s),
        forall|i: int| #![trigger s[i]] 0 <= i < s.len() ==> s[i].0@ != x.0@,
    ensures
        distinct_keys(s.push(x)),
        entries_map(s.push(x)) == entries_map(s).insert(x.0@, x.1),
{
    let t = s.push(x);
    assert forall|a: int, b: int|
        #![trigger t[a], t[b]]
        0 <= a < t.len() && 0 <= b < t.len() && a != b implies t[a].0@ != t[b].0@ by {
        if a < s.len() && b < s.len() {
            assert(s[a].0@ != s[b].0@);
        } else if a < s.len() {
            assert(t[a] == s[a]);
        } else {
            assert(t[b] == s[b]);
        }
    }
    assert(t[s.len() as int] == x);
    lemma_same_other_keys(s, t, x.0@, x.1);
}

/// Two entry lists with distinct emojis that agree on every emoji but `k`, where
/// the second maps `k` to `role`, stand for maps that differ by that insert.
proof fn lemma_same_other_keys(s: Seq<(Emoji, u64)>, t: Seq<(Emoji, u64)>, k: EmojiView, role: u64)
    requires
        distinct_keys(s),
        distinct_keys(t),
        s.len() <= t.len() <= s.len() + 1,
        forall|j: int| #![trigger t[j]] 0 <= j < s.len() && s[j].0@ != k ==> t[j] == s[j],
        forall|j: int| #![trigger t[j]] 0 <= j < s.len() && s[j].0@ == k ==> t[j].0@ == k,
        t.len() == s.len() + 1 ==> t[s.len() as int].0@ == k,
        exists|j: int| 0 <= j < t.len() && t[j].0@ == k && t[j].1 == role,
    ensures
        entries_map(t) == entries_map(s).insert(k, role),
{
    let m = entries_map(s).insert(k, role);
    let w = choose|j: int| 0 <= j < t.len() && t[j].0@ == k && t[j].1 == role;
    lemma_lookup(t, w);
    assert forall|k2: EmojiView| #[trigger] m.contains_key(k2) implies entries_map(t).contains_key(k2)
        && entries_map(t)[k2] == m[k2] by {
        if k2 != k {
            let j = choose|j: int| 0 <= j < s.len() && #[trigger] s[j].0@ == k2;
            lemma_lookup(s, j);
            assert(t[j] == s[j]);
            lemma_lookup(t, j);
        }
    }
    assert forall|k2: EmojiView| #[trigger] entries_map(t).contains_key(k2) implies m.contains_key(k2) by {
        if k2 != k {
            let j = choose|j: int| 0 <= j < t.len() && #[trigger] t[j].0@ == k2;
            if j < s.len() {
                if s[j].0@ == k {
                    assert(t[j].0@ == k);
                } else {
                    assert(s[j] == t[j]);
                    lemma_lookup(s, j);
                }
            }
        }
    }
    assert(entries_map(t) =~= m);
}

/// The roles handed out for reactions, keyed by emoji; an emoji has at most one role.
pub struct ReactionRoles {
    entries: Vec<(Emoji, u64)>,
}

impl View for ReactionRoles {
    type V = Map<EmojiView, u64>;

    closed spec fn view(&self) -> Map<EmojiView, u64> {
        entries_map(self.entries@)
    }
}

/// A map after the (emoji, role) pairs were inserted in order, as `extend` inserts them.
pub open spec fn insert_all(m: Map<EmojiView, u64>, pairs: Seq<(EmojiView, u64)>) -> Map<EmojiView, u64>
    decreases pairs.len(),
{
    if pairs.len() == 0 {
        m
    } else {
        insert_all(m, pairs.drop_last()).insert(pairs.last().0, pairs.last().1)
    }
}

/// The pairs of a list of entries, with their emojis as views.
pub open spec fn pairs_view(pairs: Seq<(Emoji, u64)>) -> Seq<(EmojiView, u64)> {
    pairs.map_values(|p: (Emoji, u64)| (p.0@, p.1))
}

impl ReactionRoles {
    #[verifier::type_invariant]
    spec fn keys_distinct(self) -> bool {
        distinct_keys(self.entries@)
    }

    /// An empty set of reaction roles.
    pub fn new() -> (roles: ReactionRoles)
        ensures
            roles@ == Map::<EmojiView, u64>::empty(),
    {
        let roles = ReactionRoles { entries: Vec::new() };
        assert(roles@ =~= Map::<EmojiView, u64>::empty());
        roles
    }

    fn position(&self, emoji: &Emoji) -> (r: Option<usize>)
        ensures
            r matches Some(i) ==> i < self.entries@.len() && self.entries@[i as int].0@ == emoji@,
            r is None ==> forall|i: int| #![trigger self.entries@[i]] 0 <= i < self.entries@.len() ==> self.entries@[i].0@ != emoji@,
    {
        let mut i: usize = 0;
        while i < self.entries.len()
            invariant
                i <= self.entries@.len(),
                forall|j: int| #![trigger self.entries@[j]] 0 <= j < i ==> self.entries@[j].0@ != emoji@,
            decreases self.entries@.len() - i,
        {
            if self.entries[i].0.same_as(emoji) {
                return Some(i);
            }
            i = i + 1;
        }
        None
    }

    /// Whether `emoji` hands out a role.
    pub fn contains_key(&self, emoji: &Emoji) -> (r: bool)
        ensures
            r == self@.contains_key(emoji@),
    {
        proof { use_type_invariant(self); }
        match self.position(emoji) {
            Some(i) => {
                proof { lemma_lookup(self.entries@, i as int); }
                true
            },
            None => {
                proof {
                    lemma_absent(self.entries@, emoji@);
                }
                false
            },
        }
    }

    /// The role that `emoji` hands out, if any.
    pub fn get(&self, emoji: &Emoji) -> (r: Option<u64>)
        ensures
            r == self@.get(emoji@),
    {
        proof { use_type_invariant(self); }
        match self.position(emoji) {
            Some(i) => {
                proof { lemma_lookup(self.entries@, i as int); }
                Some(self.entries[i].1)
            },
            None => {
                proof {
                    lemma_absent(self.entries@, emoji@);
                }
                None
            },
        }
    }

    /// Makes `emoji` hand out `role`, replacing the role it had; returns that role.
    pub fn insert(&mut self, emoji: Emoji, role: u64) -> (previous: Option<u64>)
        ensures
            final(self)@ == old(self)@.insert(emoji@, role),
            previous == old(self)@.get(emoji@),
    {
        proof { use_type_invariant(&*self); }
        let ghost k = emoji@;
        let ghost s = self.entries@;
        let found = self.position(&emoji);
        let mut entries: Vec<(Emoji, u64)> = Vec::new();
        std::mem::swap(&mut entries, &mut self.entries);
        assert(entries@ == s);
        match found {
            Some(i) => {
                proof { lemma_lookup(s, i as int); }
                let previous = entries[i].1;
                entries.set(i, (emoji, role));
                proof { lemma_map_after_update(s, i as int, entries@[i as int]); }
                self.entries = entries;
                Some(previous)
            },
            None => {
                proof { lemma_absent(s, k); }
                entries.push((emoji, role));
                proof { lemma_map_after_push(s, entries@.last()); }
                self.entries = entries;
                None
            },
        }
    }

    /// Inserts the (emoji, role) pairs in order, as `HashMap::extend` does:
    /// where an emoji comes twice, the later role stays.
    pub fn extend(&mut self, pairs: Vec<(Emoji, u64)>)
        ensures
            final(self)@ == insert_all(old(self)@, pairs_view(pairs@)),
    {
        let ghost all = pairs@;
        let mut rest = pairs;
        let mut k: usize = 0;
        let n = rest.len();
        assert(all.skip(0) =~= all);
        assert(pairs_view(all).take(0) =~= Seq::<(EmojiView, u64)>::empty());
        while k < n
            invariant
                n == all.len(),
                k <= n,
                rest@ == all.skip(k as int),
                self@ == insert_all(old(self)@, pairs_view(all).take(k as int)),
            decreases n - k,
        {
            let (emoji, role) = rest.remove(0);
            assert(rest@ =~= all.skip(k + 1));
            self.insert(emoji, role);
            assert(pairs_view(all).take(k + 1).drop_last() =~= pairs_view(all).take(k as int));
            k = k + 1;
        }
        assert(pairs_view(all).take(n as int) =~= pairs_view(all));
    }
}


/// The Discord ids the bot works with: the message that hands out roles for
/// reactions, and the role behind each of its emojis.
#[derive(Clone, Copy, Debug, PartialEq, Eq, Structural)]
pub struct ServerIds {
    pub roles_message_id: u64,
    pub archive_role_id: u64,
    pub mobile_role_id: u64,
    pub systems_role_id: u64,
    pub ai_role_id: u64,
    pub research_role_id: u64,
    pub devops_role_id: u64,
    pub web_role_id: u64,
}

/// What the bot keeps while it runs: the reaction roles and the ids they come from.
pub struct Data {
    pub reaction_roles: ReactionRoles,
    pub ids: ServerIds,
}

/// The (emoji, role) pairs of the roles message, in the order they are added.
pub open spec fn reaction_role_pairs(ids: ServerIds) -> Seq<(EmojiView, u64)> {
    seq![
        (EmojiView::Unicode(ARCHIVE_EMOJI@), ids.archive_role_id),
        (EmojiView::Unicode(MOBILE_EMOJI@), ids.mobile_role_id),
        (EmojiView::Unicode(SYSTEMS_EMOJI@), ids.systems_role_id),
        (EmojiView::Unicode(AI_EMOJI@), ids.ai_role_id),
        (EmojiView::Unicode(RESEARCH_EMOJI@), ids.research_role_id),
        (EmojiView::Unicode(DEVOPS_EMOJI@), ids.devops_role_id),
        (EmojiView::Unicode(WEB_EMOJI@), ids.web_role_id),
    ]
}

/// Whether a reaction on `message_id` with `emoji` concerns the reaction roles.
pub open spec fn spec_is_relevant(message_id: u64, emoji: EmojiView, roles_message_id: u64, roles: Map<EmojiView, u64>) -> bool {
    message_id == roles_message_id && roles.contains_key(emoji)
}

/// A role to give to or take from a guild member.
#[derive(Clone, Copy, Debug, PartialEq, Eq, Structural)]
pub struct RoleChange {
    pub guild_id: u64,
    pub user_id: u64,
    pub role_id: u64,
    /// Whether the role is given (a reaction was added) or taken (one was removed).
    pub add: bool,
}

/// Why a relevant reaction could not be acted on.
#[derive(Clone, Copy, Debug, PartialEq, Eq, Structural)]
pub enum ReactionError {
    /// The reaction did not come from a guild.
    NoGuildId,
    /// The reaction carries no user.
    NoUserId,
    /// The emoji hands out no role.
    NoRoleMapping,
}

/// What the bot does about a reaction: nothing when it does not concern the
/// reaction roles; else give or take the emoji's role for the reacting member.
pub open spec fn spec_role_change(
    roles_message_id: u64,
    roles: Map<EmojiView, u64>,
    message_id: u64,
    emoji: EmojiView,
    guild_id: Option<u64>,
    user_id: Option<u64>,
    is_add: bool,
) -> Result<Option<RoleChange>, ReactionError> {
    if !spec_is_relevant(message_id, emoji, roles_message_id, roles) {
        Ok(None)
    } else if guild_id is None {
        Err(ReactionError::NoGuildId)
    } else if user_id is None {
        Err(ReactionError::NoUserId)
    } else if !roles.contains_key(emoji) {
        Err(ReactionError::NoRoleMapping)
    } else {
        Ok(Some(RoleChange {
            guild_id: guild_id->0,
            user_id: user_id->0,
            role_id: roles[emoji],
            add: is_add,
        }))
    }
}

impl Data {
    /// The bot's data before any reaction role is set up.
    pub fn new(ids: ServerIds) -> (data: Data)
        ensures
            data.ids == ids,
            data.reaction_roles@ == Map::<EmojiView, u64>::empty(),
    {
        Data { reaction_roles: ReactionRoles::new(), ids }
    }

    /// Adds the reaction roles of the roles message: each of its seven emojis
    /// hands out its role, replacing any role it had.
    pub fn populate_with_reaction_roles(&mut self)
        ensures
            final(self).ids == old(self).ids,
            final(self).reaction_roles@ == insert_all(old(self).reaction_roles@, reaction_role_pairs(old(self).ids)),
    {
        let ids = self.ids;
        let roles = vec![
            (Emoji::unicode(ARCHIVE_EMOJI), ids.archive_role_id),
            (Emoji::unicode(MOBILE_EMOJI), ids.mobile_role_id),
            (Emoji::unicode(SYSTEMS_EMOJI), ids.systems_role_id),
            (Emoji::unicode(AI_EMOJI), ids.ai_role_id),
            (Emoji::unicode(RESEARCH_EMOJI), ids.research_role_id),
            (Emoji::unicode(DEVOPS_EMOJI), ids.devops_role_id),
            (Emoji::unicode(WEB_EMOJI), ids.web_role_id),
        ];
        assert(pairs_view(roles@) =~= reaction_role_pairs(ids));
        self.reaction_roles.extend(roles);
    }
}

/// Whether a reaction on `message_id` with `emoji` concerns the reaction roles:
/// it is on the roles message and its emoji hands out a role.
pub fn is_relevant_reaction(message_id: u64, emoji: &Emoji, data: &Data) -> (relevant: bool)
    ensures
        relevant == spec_is_relevant(message_id, emoji@, data.ids.roles_message_id, data.reaction_roles@),
{
    message_id == data.ids.roles_message_id && data.reaction_roles.contains_key(emoji)
}

/// Decides what to do about a reaction added (`is_add`) or removed on
/// `message_id` with `emoji` by `user_id` in `guild_id`.
pub fn reaction_role_change(
    data: &Data,
    message_id: u64,
    emoji: &Emoji,
    guild_id: Option<u64>,
    user_id: Option<u64>,
    is_add: bool,
) -> (r: Result<Option<RoleChange>, ReactionError>)
    ensures
        r == spec_role_change(
            data.ids.roles_message_id,
            data.reaction_roles@,
            message_id,
            emoji@,
            guild_id,
            user_id,
            is_add,
        ),
{
    if !is_relevant_reaction(message_id, emoji, data) {
        return Ok(None);
    }
    let guild_id = match guild_id {
        Some(g) => g,
        None => return Err(ReactionError::NoGuildId),
    };
    let user_id = match user_id {
        Some(u) => u,
        None => return Err(ReactionError::NoUserId),
    };
    match data.reaction_roles.get(emoji) {
        Some(role_id) => Ok(Some(RoleChange { guild_id, user_id, role_id, add: is_add })),
        None => Err(ReactionError::NoRoleMapping),
    }
}


/// The seven emojis of the roles message, as views.
pub open spec fn role_emoji_views() -> Seq<EmojiView> {
    seq![
        EmojiView::Unicode(ARCHIVE_EMOJI@),
        EmojiView::Unicode(MOBILE_EMOJI@),
        EmojiView::Unicode(SYSTEMS_EMOJI@),
        EmojiView::Unicode(AI_EMOJI@),
        EmojiView::Unicode(RESEARCH_EMOJI@),
        EmojiView::Unicode(DEVOPS_EMOJI@),
        EmojiView::Unicode(WEB_EMOJI@),
    ]
}

proof fn lemma_insert_all_step(m: Map<EmojiView, u64>, p: Seq<(EmojiView, u64)>, k: int)
    requires
        0 <= k < p.len(),
    ensures
        insert_all(m, p.take(k + 1)) == insert_all(m, p.take(k)).insert(p[k].0, p[k].1),
{
    assert(p.take(k + 1).drop_last() =~= p.take(k));
    assert(p.take(k + 1).last() == p[k]);
}

proof fn lemma_role_pairs_inserted(m: Map<EmojiView, u64>, ids: ServerIds)
    ensures
        insert_all(m, reaction_role_pairs(ids)) == m.insert(EmojiView::Unicode(ARCHIVE_EMOJI@), ids.archive_role_id)
            .insert(EmojiView::Unicode(MOBILE_EMOJI@), ids.mobile_role_id)
            .insert(EmojiView::Unicode(SYSTEMS_EMOJI@), ids.systems_role_id)
            .insert(EmojiView::Unicode(AI_EMOJI@), ids.ai_role_id)
            .insert(EmojiView::Unicode(RESEARCH_EMOJI@), ids.research_role_id)
            .insert(EmojiView::Unicode(DEVOPS_EMOJI@), ids.devops_role_id)
            .insert(EmojiView::Unicode(WEB_EMOJI@), ids.web_role_id),
{
    let p = reaction_role_pairs(ids);
    assert(p.take(7) =~= p);
    lemma_insert_all_step(m, p, 0);
    lemma_insert_all_step(m, p, 1);
    lemma_insert_all_step(m, p, 2);
    lemma_insert_all_step(m, p, 3);
    lemma_insert_all_step(m, p, 4);
    lemma_insert_all_step(m, p, 5);
    lemma_insert_all_step(m, p, 6);
    assert(insert_all(m, p.take(0)) == m);
}

proof fn lemma_role_emojis_distinct()
    ensures
        ({
            let v = role_emoji_views();
            &&& v[0] != v[1] && v[0] != v[2] && v[0] != v[3] && v[0] != v[4] && v[0] != v[5] && v[0] != v[6]
            &&& v[1] != v[2] && v[1] != v[3] && v[1] != v[4] && v[1] != v[5] && v[1] != v[6]
            &&& v[2] != v[3] && v[2] != v[4] && v[2] != v[5] && v[2] != v[6]
            &&& v[3] != v[4] && v[3] != v[5] && v[3] != v[6]
            &&& v[4] != v[5] && v[4] != v[6]
            &&& v[5] != v[6]
        }),
{
    reveal_strlit("\u{1F4C1}");
    reveal_strlit("\u{1F4F1}");
    reveal_strlit("\u{2699}\u{FE0F}");
    reveal_strlit("\u{1F916}");
    reveal_strlit("\u{1F4DC}");
    reveal_strlit("\u{1F680}");
    reveal_strlit("\u{1F310}");
    let v = role_emoji_views();
    assert forall|i: int, j: int|
        #![trigger v[i], v[j]]
        0 <= i < 7 && 0 <= j < 7 && i != j implies v[i] != v[j] by {
        assert(v[i]->Unicode_0[0] != v[j]->Unicode_0[0]);
    }
}

/// Setting up the reaction roles on an empty map leaves exactly the seven
/// emojis of the roles message, each handing out its own role.
pub proof fn law_populated_reaction_roles(ids: ServerIds)
    ensures
        forall|k: EmojiView|
            #[trigger] insert_all(Map::empty(), reaction_role_pairs(ids)).contains_key(k)
                <==> role_emoji_views().contains(k),
        forall|i: int|
            0 <= i < 7 ==> insert_all(Map::empty(), reaction_role_pairs(ids))[#[trigger] role_emoji_views()[i]]
                == reaction_role_pairs(ids)[i].1,
{
    lemma_role_pairs_inserted(Map::empty(), ids);
    lemma_role_emojis_distinct();
    let v = role_emoji_views();
    assert forall|k: EmojiView| #[trigger] role_emoji_views().contains(k)
        implies insert_all(Map::empty(), reaction_role_pairs(ids)).contains_key(k) by {
        let i = choose|i: int| 0 <= i < 7 && v[i] == k;
        assert(0 <= i < 7);
    }
    assert forall|k: EmojiView| #[trigger] insert_all(Map::empty(), reaction_role_pairs(ids)).contains_key(k)
        implies role_emoji_views().contains(k) by {
        if k == v[0] { assert(v[0] == k); } else if k == v[1] { assert(v[1] == k); }
        else if k == v[2] { assert(v[2] == k); } else if k == v[3] { assert(v[3] == k); }
        else if k == v[4] { assert(v[4] == k); } else if k == v[5] { assert(v[5] == k); }
        else { assert(v[6] == k); }
    }
    assert forall|i: int| 0 <= i < 7 implies insert_all(Map::empty(), reaction_role_pairs(ids))[#[trigger] role_emoji_views()[i]]
        == reaction_role_pairs(ids)[i].1 by {
    }
}

/// Setting up the reaction roles twice leaves the same roles as once.
pub proof fn law_populate_idempotent(m: Map<EmojiView, u64>, ids: ServerIds)
    ensures
        insert_all(insert_all(m, reaction_role_pairs(ids)), reaction_role_pairs(ids)) == insert_all(
            m,
            reaction_role_pairs(ids),
        ),
{
    lemma_role_pairs_inserted(m, ids);
    lemma_role_pairs_inserted(insert_all(m, reaction_role_pairs(ids)), ids);
    lemma_role_emojis_distinct();
    let v = role_emoji_views();
    assert(insert_all(insert_all(m, reaction_role_pairs(ids)), reaction_role_pairs(ids)) =~= insert_all(
        m,
        reaction_role_pairs(ids),
    ));
}

/// Giving a role for an emoji makes the emoji hand out that role and leaves
/// every other emoji as it was.
pub proof fn law_insert_then_get(roles: Map<EmojiView, u64>, emoji: EmojiView, role: u64, other: EmojiView)
    ensures
        roles.insert(emoji, role).get(emoji) == Some(role),
        other != emoji ==> roles.insert(emoji, role).get(other) == roles.get(other),
{
}

/// A reaction that concerns the reaction roles never fails for want of a role;
/// from a guild member it gives (on add) or takes (on remove) the emoji's role,
/// and adding and removing the same reaction concern the same role.
pub proof fn law_relevant_reaction_changes_its_role(
    roles_message_id: u64,
    roles: Map<EmojiView, u64>,
    message_id: u64,
    emoji: EmojiView,
    guild_id: Option<u64>,
    user_id: Option<u64>,
)
    requires
        spec_is_relevant(message_id, emoji, roles_message_id, roles),
    ensures
        spec_role_change(roles_message_id, roles, message_id, emoji, guild_id, user_id, true)
            != Err::<Option<RoleChange>, ReactionError>(ReactionError::NoRoleMapping),
        guild_id is Some && user_id is Some ==> spec_role_change(
            roles_message_id,
            roles,
            message_id,
            emoji,
            guild_id,
            user_id,
            true,
        ) == Ok::<Option<RoleChange>, ReactionError>(Some(RoleChange {
            guild_id: guild_id->0,
            user_id: user_id->0,
            role_id: roles[emoji],
            add: true,
        })) && spec_role_change(roles_message_id, roles, message_id, emoji, guild_id, user_id, false)
            == Ok::<Option<RoleChange>, ReactionError>(Some(RoleChange {
            guild_id: guild_id->0,
            user_id: user_id->0,
            role_id: roles[emoji],
            add: false,
        })),
{
}

/// Whether a reaction concerns the reaction roles depends on nothing but its
/// message and its emoji: it does exactly when it is on the roles message and
/// its emoji hands out a role, whatever the emoji looks like.
pub proof fn law_relevance_is_roles_message_and_map(
    message_id: u64,
    emoji: EmojiView,
    roles_message_id: u64,
    roles: Map<EmojiView, u64>,
)
    ensures
        spec_is_relevant(message_id, emoji, roles_message_id, roles) <==> (message_id == roles_message_id
            && roles.contains_key(emoji)),
        spec_is_relevant(roles_message_id, emoji, roles_message_id, roles) == roles.contains_key(emoji),
{
}

/// After the reaction roles are set up, a guild member's reaction on the roles
/// message with any of the seven emojis gives (on add) or takes (on remove)
/// exactly that emoji's role.
pub proof fn law_populated_emoji_changes_role(ids: ServerIds, guild_id: u64, user_id: u64, add: bool)
    ensures
        ({
            let roles = insert_all(Map::empty(), reaction_role_pairs(ids));
            let change = |e: Seq<char>, role: u64|
                spec_role_change(
                    ids.roles_message_id,
                    roles,
                    ids.roles_message_id,
                    EmojiView::Unicode(e),
                    Some(guild_id),
                    Some(user_id),
                    add,
                ) == Ok::<Option<RoleChange>, ReactionError>(
                    Some(RoleChange { guild_id, user_id, role_id: role, add }),
                );
            &&& change(ARCHIVE_EMOJI@, ids.archive_role_id)
            &&& change(MOBILE_EMOJI@, ids.mobile_role_id)
            &&& change(SYSTEMS_EMOJI@, ids.systems_role_id)
            &&& change(AI_EMOJI@, ids.ai_role_id)
            &&& change(RESEARCH_EMOJI@, ids.research_role_id)
            &&& change(DEVOPS_EMOJI@, ids.devops_role_id)
            &&& change(WEB_EMOJI@, ids.web_role_id)
        }),
{
    lemma_role_pairs_inserted(Map::empty(), ids);
    lemma_role_emojis_distinct();
    let v = role_emoji_views();
    assert(v[0] == EmojiView::Unicode(ARCHIVE_EMOJI@));
    assert(v[2] == EmojiView::Unicode(SYSTEMS_EMOJI@));
}

/// A reaction that does not concern the reaction roles is left alone.
pub proof fn law_irrelevant_reaction_ignored(
    roles_message_id: u64,
    roles: Map<EmojiView, u64>,
    message_id: u64,
    emoji: EmojiView,
    guild_id: Option<u64>,
    user_id: Option<u64>,
    is_add: bool,
)
    requires
        !spec_is_relevant(message_id, emoji, roles_message_id, roles),
    ensures
        spec_role_change(roles_message_id, roles, message_id, emoji, guild_id, user_id, is_add)
            == Ok::<Option<RoleChange>, ReactionError>(None),
{
}

} // verus!
