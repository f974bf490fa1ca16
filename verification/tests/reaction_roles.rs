use amd::reaction_roles::{
    is_relevant_reaction, reaction_role_change, Data, Emoji, ReactionError, ReactionRoles,
    RoleChange, ServerIds, AI_EMOJI, ARCHIVE_EMOJI, DEVOPS_EMOJI, MOBILE_EMOJI, RESEARCH_EMOJI,
    SYSTEMS_EMOJI, WEB_EMOJI,
};

fn ids() -> ServerIds {
    ServerIds {
        roles_message_id: 500,
        archive_role_id: 11,
        mobile_role_id: 12,
        systems_role_id: 13,
        ai_role_id: 14,
        research_role_id: 15,
        devops_role_id: 16,
        web_role_id: 17,
    }
}

fn populated() -> Data {
    let mut data = Data::new(ids());
    data.populate_with_reaction_roles();
    data
}

#[test]
fn emoji_texts_are_the_role_emojis() {
    assert_eq!(ARCHIVE_EMOJI, "📁");
    assert_eq!(MOBILE_EMOJI, "📱");
    assert_eq!(SYSTEMS_EMOJI, "⚙️");
    assert_eq!(AI_EMOJI, "🤖");
    assert_eq!(RESEARCH_EMOJI, "📜");
    assert_eq!(DEVOPS_EMOJI, "🚀");
    assert_eq!(WEB_EMOJI, "🌐");
}

#[test]
fn populate_maps_each_emoji_to_its_role() {
    let data = populated();
    let expected = [
        ("📁", 11), ("📱", 12), ("⚙️", 13), ("🤖", 14), ("📜", 15), ("🚀", 16), ("🌐", 17),
    ];
    for (emoji, role) in expected {
        assert_eq!(data.reaction_roles.get(&Emoji::unicode(emoji)), Some(role), "{emoji}");
        assert!(data.reaction_roles.contains_key(&Emoji::unicode(emoji)));
    }
    assert_eq!(data.reaction_roles.get(&Emoji::unicode("⚙")), None);
    assert_eq!(data.reaction_roles.get(&Emoji::unicode("👍")), None);
}

#[test]
fn populate_twice_keeps_the_same_roles() {
    let mut data = populated();
    data.populate_with_reaction_roles();
    assert_eq!(data.reaction_roles.get(&Emoji::unicode("🌐")), Some(17));
    assert_eq!(data.reaction_roles.get(&Emoji::unicode("📁")), Some(11));
}

#[test]
fn custom_emoji_with_same_name_is_not_the_unicode_one() {
    let data = populated();
    let custom = Emoji::Custom { animated: false, id: 1, name: Some("📁".to_string()) };
    assert!(!data.reaction_roles.contains_key(&custom));
    assert!(custom.same_as(&Emoji::Custom { animated: false, id: 1, name: Some("📁".to_string()) }));
    assert!(!custom.same_as(&Emoji::Custom { animated: true, id: 1, name: Some("📁".to_string()) }));
    assert!(!custom.same_as(&Emoji::Custom { animated: false, id: 2, name: Some("📁".to_string()) }));
    assert!(!custom.same_as(&Emoji::Custom { animated: false, id: 1, name: None }));
    assert!(!custom.same_as(&Emoji::unicode("📁")));
}

#[test]
fn relevance_needs_roles_message_and_known_emoji() {
    let data = populated();
    assert!(is_relevant_reaction(500, &Emoji::unicode("🤖"), &data));
    assert!(!is_relevant_reaction(501, &Emoji::unicode("🤖"), &data));
    assert!(!is_relevant_reaction(500, &Emoji::unicode("🎉"), &data));
    let empty = Data::new(ids());
    assert!(!is_relevant_reaction(500, &Emoji::unicode("🤖"), &empty));
}

#[test]
fn added_reaction_gives_role_removed_takes_it() {
    let data = populated();
    let add = reaction_role_change(&data, 500, &Emoji::unicode("🚀"), Some(7), Some(8), true);
    assert_eq!(add, Ok(Some(RoleChange { guild_id: 7, user_id: 8, role_id: 16, add: true })));
    let remove = reaction_role_change(&data, 500, &Emoji::unicode("🚀"), Some(7), Some(8), false);
    assert_eq!(remove, Ok(Some(RoleChange { guild_id: 7, user_id: 8, role_id: 16, add: false })));
}

#[test]
fn irrelevant_reactions_are_ignored() {
    let data = populated();
    assert_eq!(reaction_role_change(&data, 1, &Emoji::unicode("🚀"), None, None, true), Ok(None));
    assert_eq!(reaction_role_change(&data, 500, &Emoji::unicode("❤"), Some(1), Some(2), false), Ok(None));
}

#[test]
fn missing_guild_or_user_is_an_error() {
    let data = populated();
    let e = Emoji::unicode("🌐");
    assert_eq!(reaction_role_change(&data, 500, &e, None, Some(2), true), Err(ReactionError::NoGuildId));
    assert_eq!(reaction_role_change(&data, 500, &e, None, None, true), Err(ReactionError::NoGuildId));
    assert_eq!(reaction_role_change(&data, 500, &e, Some(1), None, true), Err(ReactionError::NoUserId));
}

#[test]
fn insert_replaces_and_reports_previous_role() {
    let mut roles = ReactionRoles::new();
    assert_eq!(roles.insert(Emoji::unicode("a"), 1), None);
    assert_eq!(roles.insert(Emoji::unicode("b"), 2), None);
    assert_eq!(roles.insert(Emoji::unicode("a"), 3), Some(1));
    assert_eq!(roles.get(&Emoji::unicode("a")), Some(3));
    assert_eq!(roles.get(&Emoji::unicode("b")), Some(2));
}

#[test]
fn extend_keeps_the_later_role() {
    let mut roles = ReactionRoles::new();
    roles.extend(vec![
        (Emoji::unicode("x"), 1),
        (Emoji::unicode("y"), 2),
        (Emoji::unicode("x"), 9),
    ]);
    assert_eq!(roles.get(&Emoji::unicode("x")), Some(9));
    assert_eq!(roles.get(&Emoji::unicode("y")), Some(2));
    assert!(!roles.contains_key(&Emoji::unicode("z")));
}
