use meshbbs::npcs::{npc_list, sort_texts, text_less, transform_npcs, NpcSeed};

#[test]
fn npc_transformation_sorts_and_extracts_metadata() {
    let seeds = vec![
        NpcSeed {
            id: "gate_guard".into(),
            name: "Gate Guard".into(),
            title: Some("North Gate Guard".into()),
            location: "north_gate".into(),
            dialogue_topics: vec!["warning".to_string(), "greeting".to_string()],
            flags: vec!["Guard".to_string(), "TutorialNpc".to_string()],
        },
        NpcSeed {
            id: "mayor".into(),
            name: "Mayor".into(),
            title: None,
            location: "city_hall".into(),
            dialogue_topics: vec!["greeting".to_string()],
            flags: vec![],
        },
    ];

    let summaries = transform_npcs(seeds);
    assert_eq!(summaries.len(), 2);
    assert_eq!(summaries[0].name, "Gate Guard");
    assert_eq!(summaries[0].dialogue_topics, vec!["greeting".to_string(), "warning".to_string()]);
    assert_eq!(summaries[0].flags, vec!["Guard".to_string(), "TutorialNpc".to_string()]);
    assert_eq!(summaries[1].name, "Mayor");
    assert!(summaries[1].title.is_none());
}

#[test]
fn roster_is_ordered_by_name() {
    let seed = |name: &str| NpcSeed {
        id: name.to_lowercase(),
        name: name.to_string(),
        title: None,
        location: "x".into(),
        dialogue_topics: vec![],
        flags: vec!["b".into(), "a".into()],
    };
    let list = npc_list(vec![seed("Zed"), seed("Anna"), seed("Mia")], "data/seeds/npcs.json".to_string());
    let names: Vec<&str> = list.npcs.iter().map(|n| n.name.as_str()).collect();
    assert_eq!(names, vec!["Anna", "Mia", "Zed"]);
    assert_eq!(list.total, 3);
    assert_eq!(list.npcs[0].flags, vec!["a", "b"]);
    assert!(list.source_path.contains("npcs.json"));
}

#[test]
fn texts_order_like_strings() {
    let mut v: Vec<String> = vec!["b".into(), "B".into(), "ab".into(), "a".into(), "é".into(), "".into()];
    sort_texts(&mut v);
    let mut expected = v.clone();
    expected.sort();
    assert_eq!(v, expected);
    assert!(text_less("a", "ab"));
    assert!(!text_less("ab", "a"));
    assert!(text_less("Z", "a"));
    assert!(!text_less("same", "same"));
}
