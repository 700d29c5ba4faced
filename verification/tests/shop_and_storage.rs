use taskquest::achievements::AchievementTracker;
use taskquest::character::Character;
use taskquest::class::Class;
use taskquest::loot::RewardTier;
use taskquest::shop::RewardStore;
use taskquest::shop::ShopError;
use taskquest::stats::StatType;
use taskquest::storage::DocumentError;
use taskquest::storage::Field;
use taskquest::storage::FieldValue;
use taskquest::storage::LoadSource;
use taskquest::storage::choose_loaded;
use taskquest::storage::decode_character;
use taskquest::storage::decode_tracker;
use taskquest::storage::encode_character;
use taskquest::storage::encode_tracker;
use taskquest::xp::TaskTiming;

#[test]
fn test_default_rewards() {
    let store = RewardStore::new();
    assert_eq!(store.rewards.len(), 10);
    assert_eq!(store.next_id, 11);
}

#[test]
fn test_add_reward() {
    let mut store = RewardStore::new();
    let id = store.add_reward(
        "Test Reward".to_string(),
        250,
        "A test reward".to_string(),
        RewardTier::Normal,
        0,
    );
    assert_eq!(id, 11);
    assert_eq!(store.rewards.len(), 11);
}

#[test]
fn test_purchase_reward() {
    let mut store = RewardStore::new();
    let now: i64 = 1_700_000_000;

    // Successful purchase
    let cost = store.purchase_reward(1, 100, now).unwrap();
    assert_eq!(cost, 50);

    // Not enough gold
    assert!(store.purchase_reward(10, 100, now).is_err());
}

#[test]
fn test_purchase_errors() {
    let mut store = RewardStore::new();
    let now: i64 = 1_700_000_000;

    assert!(matches!(store.purchase_reward(99, 10000, now), Err(ShopError::RewardNotFound)));
    assert_eq!(
        store.purchase_reward(10, 100, now),
        Err(ShopError::NotEnoughGold { needed: 3000, available: 100 })
    );

    // Reward 6 ("Day Off") has a week's cooldown: a second purchase an hour
    // later is refused with the remaining time.
    assert_eq!(store.purchase_reward(6, 10000, now), Ok(500));
    let err = store.purchase_reward(6, 10000, now + 3600);
    assert_eq!(err, Err(ShopError::OnCooldown { hours_remaining: 167 }));
    // After the cooldown has elapsed the purchase goes through again.
    let later = now + 169 * 3600;
    assert_eq!(store.purchase_reward(6, 10000, later), Ok(500));
}

#[test]
fn test_remove_reward() {
    let mut store = RewardStore::new();
    assert_eq!(store.remove_reward(3), Err(ShopError::CannotRemoveDefault));
    assert_eq!(store.remove_reward(42), Err(ShopError::RewardNotFound));
    let id = store.add_reward(
        "Disposable".to_string(),
        10,
        "Soon gone".to_string(),
        RewardTier::Normal,
        0,
    );
    assert_eq!(store.remove_reward(id), Ok(()));
    assert_eq!(store.rewards.len(), 10);
}

#[test]
fn test_reward_lookup() {
    let store = RewardStore::new();
    assert_eq!(store.get_reward(4).unwrap().name, "Treat Meal");
    assert!(store.get_reward(77).is_none());
    // Name lookup ignores letter case.
    assert_eq!(store.get_reward_by_name("COFFEE BREAK").unwrap().id, 1);
    assert_eq!(store.get_reward_by_name("movie night").unwrap().id, 3);
    assert!(store.get_reward_by_name("no such reward").is_none());
}

#[test]
fn test_available_rewards_respect_cooldown() {
    let mut store = RewardStore::new();
    let now: i64 = 1_700_000_000;
    assert_eq!(store.available_rewards(now).len(), 10);
    store.purchase_reward(6, 10000, now).unwrap();
    // "Day Off" is now cooling down; rewards without cooldown stay available.
    let available = store.available_rewards(now + 3600);
    assert_eq!(available.len(), 9);
    assert!(available.iter().all(|r| r.id != 6));
    assert_eq!(store.available_rewards(now + 169 * 3600).len(), 10);
}

fn sample_character() -> Character {
    let mut hero = Character::new("Aveline".to_string(), Class::Paladin);
    hero.add_xp(3000);
    hero.add_gold(321);
    hero.complete_task(7, Some(StatType::WIS), Some(StatType::CHA));
    hero.active_title = Some("the Steadfast".to_string());
    hero
}

#[test]
fn test_character_round_trip() {
    let hero = sample_character();
    let doc = encode_character(&hero);
    let back = decode_character(&doc).unwrap();
    assert_eq!(back.name, hero.name);
    assert_eq!(back.class, hero.class);
    assert_eq!(back.level, hero.level);
    assert_eq!(back.total_xp, hero.total_xp);
    assert_eq!(back.stats.strength, hero.stats.strength);
    assert_eq!(back.stats.wisdom, hero.stats.wisdom);
    assert_eq!(back.stats.charisma, hero.stats.charisma);
    assert_eq!(back.gold, hero.gold);
    assert_eq!(back.tasks_completed, hero.tasks_completed);
    assert_eq!(back.active_title, hero.active_title);
}

#[test]
fn test_tracker_round_trip() {
    let mut tracker = AchievementTracker::new();
    let hero = sample_character();
    tracker.record_quest_completion(&hero, 7, TaskTiming::Early, Some("keep"), 200);
    tracker.record_quest_completion(&hero, 3, TaskTiming::OnTime, Some("field"), 231);
    tracker.record_reward_purchase(&hero);

    let doc = encode_tracker(&tracker);
    let back = decode_tracker(&doc).unwrap();
    assert_eq!(back.unlocked, tracker.unlocked);
    assert_eq!(back.progress.quests_completed, tracker.progress.quests_completed);
    assert_eq!(back.progress.quests_by_difficulty, tracker.progress.quests_by_difficulty);
    assert_eq!(back.progress.active_days, tracker.progress.active_days);
    assert_eq!(back.progress.projects_completed, tracker.progress.projects_completed);
    assert_eq!(back.progress.last_activity_date, tracker.progress.last_activity_date);
    assert_eq!(back.progress.had_30_day_break, tracker.progress.had_30_day_break);
    assert_eq!(
        back.progress.comeback_quests_after_break,
        tracker.progress.comeback_quests_after_break
    );
    assert_eq!(back.progress.rewards_purchased, tracker.progress.rewards_purchased);
}

#[test]
fn test_decode_rejects_corruption() {
    // Wrong shape entirely.
    let garbage = vec![Field { name: "junk".to_string(), value: FieldValue::Int(5) }];
    assert!(matches!(decode_character(&garbage), Err(DocumentError::WrongShape)));

    // A stat out of its range is refused.
    let hero = sample_character();
    let mut doc = encode_character(&hero);
    doc[4] = Field { name: "strength".to_string(), value: FieldValue::Int(500_000) };
    assert!(matches!(decode_character(&doc), Err(DocumentError::BadValue)));

    // A level that does not match the experience total is refused.
    let mut doc = encode_character(&hero);
    doc[2] = Field { name: "level".to_string(), value: FieldValue::Int(9) };
    assert!(matches!(decode_character(&doc), Err(DocumentError::BadValue)));

    // A field of the wrong kind is refused.
    let mut doc = encode_character(&hero);
    doc[0] = Field { name: "name".to_string(), value: FieldValue::Int(1) };
    assert!(matches!(decode_character(&doc), Err(DocumentError::WrongKind)));
}

#[test]
fn test_backup_fallback() {
    let hero = sample_character();
    let good = encode_character(&hero);
    let mut corrupt = encode_character(&hero);
    corrupt[10] = Field { name: "gold".to_string(), value: FieldValue::Int(u64::MAX) };

    // A corrupted primary with a valid backup still yields a successful load.
    let (loaded, source) = choose_loaded(Some(corrupt.clone()), Some(good.clone()));
    assert_eq!(source, LoadSource::Backup);
    assert_eq!(loaded.unwrap().gold, hero.gold);

    let (loaded, source) = choose_loaded(Some(good.clone()), None);
    assert_eq!(source, LoadSource::Primary);
    assert!(loaded.is_some());

    let (loaded, source) = choose_loaded(Some(corrupt.clone()), Some(corrupt.clone()));
    assert_eq!(source, LoadSource::NoUsableState);
    assert!(loaded.is_none());

    let (loaded, source) = choose_loaded(None, None);
    assert_eq!(source, LoadSource::NoUsableState);
    assert!(loaded.is_none());
}
