use graveyard::error::RecordError;
use graveyard::markup::{Child, Node};
use graveyard::models::{load_wands, BoneWand, Wand};
use graveyard::translation::Translation;

const RECORD: &str = r#"<Entity>
  <AbilityComponent ui_name="Bolt wand" mana_max="143" mana_charge_speed="50.5" gun_level="3">
    <gun_config shuffle_deck_when_empty="1" actions_per_round="2" reload_time="30" deck_capacity="5"/>
    <gunaction_config fire_rate_wait="120" spread_degrees="2.5" speed_multiplier="1.175"/>
  </AbilityComponent>
  <Entity tags="card_action">
    <ItemActionComponent action_id="LIGHT_BULLET"/>
    <ItemComponent permanently_attached="0"/>
  </Entity>
  <Entity tags="teleportable_NOT,card_action,item">
    <ItemActionComponent action_id="Bomb"/>
    <ItemComponent permanently_attached="1"/>
  </Entity>
  <Entity tags="decoration">
    <SpriteComponent image="wand.png"/>
  </Entity>
  <Entity>
    <ItemActionComponent action_id="IGNORED"/>
  </Entity>
  <Entity tags="card_action">
    <ItemActionComponent action_id="UNKNOWN_SPELL"/>
    <ItemComponent permanently_attached="no"/>
  </Entity>
</Entity>"#;

fn table() -> Translation {
    let mut table = Translation::new();
    table.insert("action_light_bullet", "Spark bolt");
    table.insert("action_bomb", "Bomb");
    table.insert("action_LIGHT_BULLET", "wrong case");
    table.insert("action_ignored", "never shown");
    table
}

fn load(text: &str) -> Result<Wand, RecordError> {
    BoneWand::load_from("bones.xml", text, &table()).map(|bone| bone.wand)
}

fn seconds(frames: &str) -> f32 {
    frames.parse::<f32>().unwrap() / 60.0
}

#[test]
fn load_from_reads_every_field() {
    let bone = BoneWand::load_from("bones_1.xml", RECORD, &table()).unwrap();
    assert_eq!(bone.filename, "bones_1.xml");
    let wand = bone.wand;
    assert_eq!(wand.name, "Bolt wand");
    assert!(wand.shuffle);
    assert_eq!(wand.spells_per_cast, 2);
    assert_eq!(wand.cast_delay.as_str(), "120");
    assert_eq!(seconds(wand.cast_delay.as_str()), 2.0);
    assert_eq!(wand.recharge_time.as_str(), "30");
    assert_eq!(seconds(wand.recharge_time.as_str()), 0.5);
    assert_eq!(wand.mana_max.as_str(), "143");
    assert_eq!(wand.mana_max.as_str().parse::<f32>().unwrap() as i32, 143);
    assert_eq!(wand.mana_charge_speed.as_str(), "50.5");
    assert_eq!(wand.mana_charge_speed.as_str().parse::<f32>().unwrap() as i32, 50);
    assert_eq!(wand.capacity, 5);
    assert_eq!(wand.spread.as_str().parse::<f32>().unwrap(), 2.5);
    assert_eq!(wand.speed.as_str().parse::<f32>().unwrap(), 1.175);
    assert_eq!(wand.tier, 3);
}

#[test]
fn load_from_reads_the_spells_in_order() {
    let wand = load(RECORD).unwrap();
    let spells: Vec<(&str, bool)> =
        wand.spells.iter().map(|s| (s.name.as_str(), s.always_cast)).collect();
    assert_eq!(spells, vec![("Spark bolt", false), ("Bomb", true), ("???", false)]);
}

#[test]
fn spell_names_are_looked_up_in_lower_case() {
    let text = RECORD.replace("LIGHT_BULLET", "Light_Bullet");
    let wand = load(&text).unwrap();
    assert_eq!(wand.spells[0].name, "Spark bolt");
}

#[test]
fn missing_translation_gives_the_placeholder() {
    let bone = BoneWand::load_from("b.xml", RECORD, &Translation::new()).unwrap();
    let names: Vec<&str> = bone.wand.spells.iter().map(|s| s.name.as_str()).collect();
    assert_eq!(names, vec!["???", "???", "???"]);
}

#[test]
fn boolean_attributes_are_true_for_one_only() {
    for (text, expected) in [("1", true), ("0", false), ("-1", false), ("2", false), ("yes", false), ("", false)] {
        let record = RECORD.replace(
            "shuffle_deck_when_empty=\"1\"",
            &format!("shuffle_deck_when_empty=\"{text}\""),
        );
        assert_eq!(load(&record).unwrap().shuffle, expected, "{text:?}");
    }
}

#[test]
fn missing_tier_counts_as_zero() {
    let record = RECORD.replace(" gun_level=\"3\"", "");
    assert_eq!(load(&record).unwrap().tier, 0);
}

#[test]
fn negative_tier_is_an_invalid_number() {
    let record = RECORD.replace("gun_level=\"3\"", "gun_level=\"-1\"");
    assert_eq!(load(&record).err(), Some(RecordError::InvalidNumericField));
}

#[test]
fn missing_element_is_a_malformed_record() {
    let without_ability = "<Entity><Entity tags=\"card_action\"/></Entity>";
    assert_eq!(load(without_ability).err(), Some(RecordError::MalformedRecord));
    let without_gun = RECORD.replace("gun_config", "gun_settings");
    assert_eq!(load(&without_gun).err(), Some(RecordError::MalformedRecord));
    let without_action = RECORD.replace("gunaction_config", "action_settings");
    assert_eq!(load(&without_action).err(), Some(RecordError::MalformedRecord));
    let card_without_item = RECORD.replace("<ItemComponent permanently_attached=\"0\"/>", "");
    assert_eq!(load(&card_without_item).err(), Some(RecordError::MalformedRecord));
    let card_without_action =
        RECORD.replace("<ItemActionComponent action_id=\"Bomb\"/>", "");
    assert_eq!(load(&card_without_action).err(), Some(RecordError::MalformedRecord));
}

#[test]
fn missing_attribute_is_a_malformed_record() {
    for key in [
        "ui_name", "mana_max", "mana_charge_speed", "shuffle_deck_when_empty",
        "actions_per_round", "reload_time", "deck_capacity", "fire_rate_wait", "spread_degrees",
        "speed_multiplier", "action_id=\"Bomb\"", "permanently_attached=\"1\"",
    ] {
        let start = RECORD.find(key).unwrap();
        let end = if key.ends_with('"') {
            start + key.len()
        } else {
            let open = start + RECORD[start..].find('"').unwrap();
            open + 1 + RECORD[open + 1..].find('"').unwrap() + 1
        };
        let record = format!("{}{}", &RECORD[..start], &RECORD[end..]);
        assert_eq!(load(&record).err(), Some(RecordError::MalformedRecord), "{key}");
    }
}

#[test]
fn text_that_is_no_document_is_a_malformed_record() {
    assert_eq!(load("").err(), Some(RecordError::MalformedRecord));
    assert_eq!(load("<Entity>").err(), Some(RecordError::MalformedRecord));
    assert_eq!(load("not markup").err(), Some(RecordError::MalformedRecord));
}

#[test]
fn a_number_out_of_form_is_an_invalid_numeric_field() {
    for (from, to) in [
        ("actions_per_round=\"2\"", "actions_per_round=\"two\""),
        ("actions_per_round=\"2\"", "actions_per_round=\"2.0\""),
        ("actions_per_round=\"2\"", "actions_per_round=\"\""),
        ("deck_capacity=\"5\"", "deck_capacity=\"99999999999\""),
        ("gun_level=\"3\"", "gun_level=\"x\""),
        ("fire_rate_wait=\"120\"", "fire_rate_wait=\"fast\""),
        ("reload_time=\"30\"", "reload_time=\"\""),
        ("mana_max=\"143\"", "mana_max=\"1,5\""),
        ("mana_charge_speed=\"50.5\"", "mana_charge_speed=\"50.5.1\""),
        ("spread_degrees=\"2.5\"", "spread_degrees=\"2.5deg\""),
        ("speed_multiplier=\"1.175\"", "speed_multiplier=\"x1\""),
    ] {
        let record = RECORD.replace(from, to);
        assert_eq!(load(&record).err(), Some(RecordError::InvalidNumericField), "{to}");
    }
}

#[test]
fn a_missing_field_counts_before_a_number_out_of_form() {
    let record = RECORD
        .replace("actions_per_round=\"2\"", "actions_per_round=\"two\"")
        .replace(" ui_name=\"Bolt wand\"", "");
    assert_eq!(load(&record).err(), Some(RecordError::MalformedRecord));
}

#[test]
fn a_wand_without_cards_has_no_spells() {
    let start = RECORD.find("<Entity tags").unwrap();
    let record = format!("{}</Entity>", &RECORD[..start]);
    let wand = load(&record).unwrap();
    assert!(wand.spells.is_empty());
    assert!(!wand.has_always_cast());
    assert_eq!(wand.drawn_spell_count(), 0);
}

fn element(name: &str, attributes: &[(&str, &str)], children: Vec<Node>) -> Node {
    let mut node = Node::new(name);
    for (key, value) in attributes {
        node.set_attribute(key, value);
    }
    for child in children {
        node.push_child(Child::Element(child));
    }
    node
}

fn record_tree() -> Node {
    element(
        "Entity",
        &[],
        vec![
            element(
                "Entity",
                &[("tags", "card_action")],
                vec![
                    element("ItemActionComponent", &[("action_id", "BOMB")], vec![]),
                    element("ItemComponent", &[("permanently_attached", "1")], vec![]),
                ],
            ),
            element(
                "AbilityComponent",
                &[("ui_name", "Wand"), ("mana_max", "1e2"), ("mana_charge_speed", ".5")],
                vec![
                    element(
                        "gunaction_config",
                        &[("fire_rate_wait", "-6"), ("spread_degrees", "0"), ("speed_multiplier", "1")],
                        vec![],
                    ),
                    element(
                        "gun_config",
                        &[
                            ("shuffle_deck_when_empty", "0"),
                            ("actions_per_round", "1"),
                            ("reload_time", "60"),
                            ("deck_capacity", "+26"),
                        ],
                        vec![],
                    ),
                ],
            ),
        ],
    )
}

#[test]
fn wand_load_from_reads_a_tree() {
    let wand = Wand::load_from(&record_tree(), &table()).unwrap();
    assert_eq!(wand.name, "Wand");
    assert!(!wand.shuffle);
    assert_eq!(wand.spells_per_cast, 1);
    assert_eq!(wand.capacity, 26);
    assert_eq!(wand.tier, 0);
    assert_eq!(seconds(wand.cast_delay.as_str()), -0.1);
    assert_eq!(seconds(wand.recharge_time.as_str()), 1.0);
    assert_eq!(wand.mana_max.as_str().parse::<f32>().unwrap() as i32, 100);
    assert_eq!(wand.mana_charge_speed.as_str().parse::<f32>().unwrap() as i32, 0);
    assert_eq!(wand.spells.len(), 1);
    assert_eq!(wand.spells[0].name, "Bomb");
    assert!(wand.spells[0].always_cast);
}

#[test]
fn only_children_of_the_root_are_spells() {
    let mut tree = record_tree();
    let mut holder = Node::new("Holder");
    holder.push_child(Child::Element(element(
        "Entity",
        &[("tags", "card_action")],
        vec![
            element("ItemActionComponent", &[("action_id", "LIGHT_BULLET")], vec![]),
            element("ItemComponent", &[("permanently_attached", "0")], vec![]),
        ],
    )));
    tree.push_child(Child::Element(holder));
    tree.push_child(Child::Text("card_action".to_string()));
    let wand = Wand::load_from(&tree, &table()).unwrap();
    assert_eq!(wand.spells.len(), 1);
}

#[test]
fn the_two_groups_part_the_spells() {
    let wand = load(RECORD).unwrap();
    let always: Vec<String> = wand.always_cast_spells().into_iter().map(|s| s.name).collect();
    let drawn: Vec<String> = wand.drawn_spells().into_iter().map(|s| s.name).collect();
    assert_eq!(always, vec!["Bomb"]);
    assert_eq!(drawn, vec!["Spark bolt", "???"]);
    assert!(wand.always_cast_spells().iter().all(|s| s.always_cast));
    assert!(wand.drawn_spells().iter().all(|s| !s.always_cast));
    assert_eq!(always.len() + drawn.len(), wand.spells.len());
    assert_eq!(wand.drawn_spell_count(), 2);
    assert!(wand.has_always_cast());
}

#[test]
fn a_wand_of_drawn_spells_has_no_always_cast() {
    let record = RECORD.replace("permanently_attached=\"1\"", "permanently_attached=\"0\"");
    let wand = load(&record).unwrap();
    assert!(!wand.has_always_cast());
    assert!(wand.always_cast_spells().is_empty());
    assert_eq!(wand.drawn_spell_count(), 3);
}

#[test]
fn a_spell_is_shown_by_its_name() {
    let wand = load(RECORD).unwrap();
    assert_eq!(wand.spells[0].to_text(), "Spark bolt");
    assert_eq!(wand.spells[2].to_text(), "???");
}

#[test]
fn load_wands_reads_each_record_in_turn() {
    let files = vec![
        ("a.xml".to_string(), RECORD.to_string()),
        ("b.xml".to_string(), RECORD.replace("Bolt wand", "Other wand")),
    ];
    let wands = load_wands(&files, &table()).unwrap();
    assert_eq!(wands.len(), 2);
    assert_eq!(wands[0].filename, "a.xml");
    assert_eq!(wands[0].wand.name, "Bolt wand");
    assert_eq!(wands[1].filename, "b.xml");
    assert_eq!(wands[1].wand.name, "Other wand");
    assert!(load_wands(&Vec::new(), &table()).unwrap().is_empty());
}

#[test]
fn load_wands_ends_at_the_first_record_that_cannot_be_read() {
    let files = vec![
        ("a.xml".to_string(), RECORD.to_string()),
        ("b.xml".to_string(), RECORD.replace("deck_capacity=\"5\"", "deck_capacity=\"many\"")),
        ("c.xml".to_string(), "no record".to_string()),
    ];
    assert_eq!(load_wands(&files, &table()).err(), Some(RecordError::InvalidNumericField));
    let files = vec![
        ("c.xml".to_string(), "no record".to_string()),
        ("b.xml".to_string(), RECORD.replace("deck_capacity=\"5\"", "deck_capacity=\"many\"")),
    ];
    assert_eq!(load_wands(&files, &table()).err(), Some(RecordError::MalformedRecord));
}
