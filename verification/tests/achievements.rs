use taskquest::achievements::Achievement;
use taskquest::achievements::AchievementTier;
use taskquest::achievements::AchievementTracker;
use taskquest::character::Character;
use taskquest::class::Class;
use taskquest::loot::LootDrop;
use taskquest::loot::RewardTier;
use taskquest::xp::TaskTiming;

fn ids(list: &[Achievement]) -> Vec<&'static str> {
    list.iter().map(|a| a.id).collect()
}

#[test]
fn test_catalog_shape() {
    let all = Achievement::all();
    assert_eq!(all.len(), 30);
    assert_eq!(all[0].id, "first_steps");
    assert_eq!(all[29].id, "transcendent_power");
    let found = Achievement::get_by_id("phoenix_rising").unwrap();
    assert_eq!(found.title, "Phoenix Rising");
    assert!(matches!(found.tier, AchievementTier::Rare));
    assert!(Achievement::get_by_id("no_such_thing").is_none());
}

#[test]
fn test_first_steps_unlocks_once() {
    let mut tracker = AchievementTracker::new();
    let hero = Character::new("Tester".to_string(), Class::Rogue);

    let newly = tracker.record_quest_completion(&hero, 5, TaskTiming::NoDueDate, None, 100);
    assert!(ids(&newly).contains(&"first_steps"));

    // Idempotence: a second qualifying event must not report it again.
    let newly2 = tracker.record_quest_completion(&hero, 5, TaskTiming::NoDueDate, None, 100);
    assert!(!ids(&newly2).contains(&"first_steps"));
    assert_eq!(
        tracker
            .get_unlocked_achievements()
            .iter()
            .filter(|a| a.id == "first_steps")
            .count(),
        1
    );
}

#[test]
fn test_balance_needs_every_difficulty() {
    let mut tracker = AchievementTracker::new();
    let hero = Character::new("Tester".to_string(), Class::Rogue);

    for difficulty in 1..=9u8 {
        let newly = tracker.record_quest_completion(
            &hero,
            difficulty,
            TaskTiming::NoDueDate,
            None,
            100,
        );
        assert!(
            !ids(&newly).contains(&"master_of_balance"),
            "balance must not unlock before every rating is covered"
        );
    }
    let newly = tracker.record_quest_completion(&hero, 10, TaskTiming::NoDueDate, None, 100);
    assert!(ids(&newly).contains(&"master_of_balance"));
}

#[test]
fn test_comeback_scenario() {
    let mut tracker = AchievementTracker::new();
    let hero = Character::new("Tester".to_string(), Class::Rogue);

    // Two events 31 days apart, then more on the same day: the comeback
    // achievement unlocks on the fifth post-gap event, not earlier.
    tracker.record_quest_completion(&hero, 5, TaskTiming::NoDueDate, None, 100);
    let newly = tracker.record_quest_completion(&hero, 5, TaskTiming::NoDueDate, None, 131);
    assert!(!ids(&newly).contains(&"phoenix_rising"));
    for _ in 0..3 {
        let newly = tracker.record_quest_completion(&hero, 5, TaskTiming::NoDueDate, None, 131);
        assert!(!ids(&newly).contains(&"phoenix_rising"));
    }
    let newly = tracker.record_quest_completion(&hero, 5, TaskTiming::NoDueDate, None, 131);
    assert!(ids(&newly).contains(&"phoenix_rising"));
}

#[test]
fn test_distinct_days_and_projects() {
    let mut tracker = AchievementTracker::new();
    let hero = Character::new("Tester".to_string(), Class::Rogue);

    tracker.record_quest_completion(&hero, 5, TaskTiming::NoDueDate, Some("home"), 7);
    tracker.record_quest_completion(&hero, 5, TaskTiming::NoDueDate, Some("home"), 7);
    tracker.record_quest_completion(&hero, 5, TaskTiming::NoDueDate, Some("work"), 8);
    assert_eq!(tracker.progress.active_days.len(), 2);
    assert_eq!(tracker.progress.projects_completed.len(), 2);
}

#[test]
fn test_timing_band_counters() {
    let mut tracker = AchievementTracker::new();
    let hero = Character::new("Tester".to_string(), Class::Rogue);

    tracker.record_quest_completion(&hero, 5, TaskTiming::Early, None, 1);
    tracker.record_quest_completion(&hero, 5, TaskTiming::OnTime, None, 1);
    tracker.record_quest_completion(&hero, 5, TaskTiming::GracePeriod, None, 1);
    tracker.record_quest_completion(&hero, 5, TaskTiming::Late, None, 1);
    tracker.record_quest_completion(&hero, 5, TaskTiming::NoDueDate, None, 1);
    assert_eq!(tracker.progress.early_tasks, 1);
    assert_eq!(tracker.progress.on_time_tasks, 1);
    assert_eq!(tracker.progress.grace_period_tasks, 1);
    // Every band but the no-due-date one also counts as having a due date.
    assert_eq!(tracker.progress.tasks_with_due_date, 4);
}

#[test]
fn test_loot_and_purchase_tracking() {
    let mut tracker = AchievementTracker::new();
    let hero = Character::new("Tester".to_string(), Class::Rogue);

    let gold_drop = LootDrop::Gold(25);
    tracker.record_loot_drop(&gold_drop, &hero);
    assert_eq!(tracker.progress.loot_drops_received, 1);
    assert!(!tracker.progress.epic_loot_received);

    let epic = LootDrop::Reward {
        tier: RewardTier::Epic,
        name: "Day Off".to_string(),
    };
    let newly = tracker.record_loot_drop(&epic, &hero);
    assert!(tracker.progress.epic_loot_received);
    assert!(ids(&newly).contains(&"epic_collector"));

    let newly = tracker.record_reward_purchase(&hero);
    assert_eq!(tracker.progress.rewards_purchased, 1);
    assert!(!ids(&newly).contains(&"wise_spender"));
}

#[test]
fn test_achievement_progress_fractions() {
    let mut tracker = AchievementTracker::new();
    let hero = Character::new("Tester".to_string(), Class::Rogue);

    assert_eq!(tracker.get_achievement_progress("first_steps", &hero), (0, 1));
    assert_eq!(tracker.get_achievement_progress("seasoned_adventurer", &hero), (0, 100));
    assert_eq!(tracker.get_achievement_progress("no_such_thing", &hero), (0, 1));

    for _ in 0..3 {
        tracker.record_quest_completion(&hero, 4, TaskTiming::NoDueDate, None, 50);
    }
    assert_eq!(tracker.get_achievement_progress("first_steps", &hero), (1, 1));
    assert_eq!(tracker.get_achievement_progress("seasoned_adventurer", &hero), (3, 100));
    // One difficulty of ten is covered so far.
    assert_eq!(tracker.get_achievement_progress("master_of_balance", &hero), (1, 10));
    // The smallest per-difficulty count is still zero.
    assert_eq!(tracker.get_achievement_progress("jack_of_all_trades", &hero), (0, 20));
    // Without a recorded break the comeback fraction stays at zero.
    assert_eq!(tracker.get_achievement_progress("phoenix_rising", &hero), (0, 5));
}

#[test]
fn test_level_achievements() {
    let mut tracker = AchievementTracker::new();
    let mut hero = Character::new("Tester".to_string(), Class::Rogue);
    // Level 5 needs floor(100 * 5^2.1) = 2936 experience.
    hero.add_xp(2936);
    assert_eq!(hero.level, 5);
    let newly = tracker.record_quest_completion(&hero, 1, TaskTiming::NoDueDate, None, 3);
    assert!(ids(&newly).contains(&"journey_begins"));
}

#[test]
fn test_tier_queries() {
    let tracker = AchievementTracker::new();
    assert_eq!(tracker.get_unlocked_count_by_tier(AchievementTier::Common), 0);
    let commons = tracker.get_achievements_by_tier(AchievementTier::Common);
    assert_eq!(commons.len(), 2);
    assert_eq!(AchievementTier::Legendary.name(), "Legendary");
    assert!(AchievementTier::Rare.color_code().starts_with('\u{1b}'));
}
