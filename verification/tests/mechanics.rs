use taskquest::character::Character;
use taskquest::class::Class;
use taskquest::gold::GoldCalculator;
use taskquest::level::LevelSystem;
use taskquest::loot::LootDrop;
use taskquest::loot::LootSystem;
use taskquest::loot::RewardTier;
use taskquest::stats::StatType;
use taskquest::stats::Stats;
use taskquest::xp::TaskTiming;
use taskquest::xp::XPCalculator;

#[test]
fn test_level_progression() {
    assert_eq!(LevelSystem::xp_for_level(1), 0);
    assert_eq!(LevelSystem::xp_for_level(2), 428);
    assert_eq!(LevelSystem::xp_for_level(3), 1004);
    assert_eq!(LevelSystem::xp_for_level(5), 2936);
}

#[test]
fn test_level_from_xp() {
    assert_eq!(LevelSystem::level_from_xp(0), 1);
    assert_eq!(LevelSystem::level_from_xp(120), 1);
    assert_eq!(LevelSystem::level_from_xp(121), 1);
    assert_eq!(LevelSystem::level_from_xp(500), 2);
}

#[test]
fn test_level_thresholds_exact() {
    // The boundary of each level: one point below stays, the threshold advances.
    assert_eq!(LevelSystem::level_from_xp(427), 1);
    assert_eq!(LevelSystem::level_from_xp(428), 2);
    assert_eq!(LevelSystem::level_from_xp(1003), 2);
    assert_eq!(LevelSystem::level_from_xp(1004), 3);
    assert_eq!(LevelSystem::xp_for_level(10), 12589);
    assert_eq!(LevelSystem::xp_for_level(20), 53971);
    assert_eq!(LevelSystem::xp_for_level(100), 1584893);
}

#[test]
fn test_curve_strictly_increasing_and_inverse() {
    let mut prev = LevelSystem::xp_for_level(1);
    for n in 2..80u32 {
        let here = LevelSystem::xp_for_level(n);
        assert!(here > prev, "curve must rise at level {}", n);
        assert_eq!(LevelSystem::level_from_xp(here), n);
        if here > 0 {
            assert_eq!(LevelSystem::level_from_xp(here - 1), n - 1);
        }
        prev = here;
    }
}

#[test]
fn test_xp_to_next_level() {
    assert_eq!(LevelSystem::xp_to_next_level(0), 428);
    assert_eq!(LevelSystem::xp_to_next_level(400), 28);
    assert_eq!(LevelSystem::xp_to_next_level(428), 1004 - 428);
}

#[test]
fn test_xp_calculation() {
    // Challenge 5, medium urgency, on time: ~75 XP
    let xp = XPCalculator::calculate(5, 500, TaskTiming::OnTime);
    assert!(xp >= 62 && xp <= 88);

    // Challenge 10, high urgency, early: ~195 XP
    let xp = XPCalculator::calculate(10, 1000, TaskTiming::Early);
    assert!(xp >= 180 && xp <= 210);

    // Challenge 3, low urgency, late: ~15 XP
    let xp = XPCalculator::calculate(3, 100, TaskTiming::Late);
    assert!(xp >= 10 && xp <= 20);
}

#[test]
fn test_xp_exact_values() {
    // floor(50 * 1.25) = 62, floor(100 * 1.5 * 1.3) = 195, floor(30 * 1.05 * 0.5) = 15
    assert_eq!(XPCalculator::calculate(5, 500, TaskTiming::OnTime), 62);
    assert_eq!(XPCalculator::calculate(10, 1000, TaskTiming::Early), 195);
    assert_eq!(XPCalculator::calculate(3, 100, TaskTiming::Late), 15);
    // The urgency bonus is capped at 1.5x however large the urgency grows.
    assert_eq!(XPCalculator::calculate(5, 99000, TaskTiming::OnTime), 75);
    // The grace period costs a fifth: floor(80 * 1.25 * 0.8) = 80.
    assert_eq!(XPCalculator::calculate(8, 500, TaskTiming::GracePeriod), 80);
}

#[test]
fn test_timing_determination() {
    let now: i64 = 1_700_000_000;

    // Early: >24hrs before
    assert!(matches!(
        XPCalculator::determine_timing(Some(now + 48 * 3600), now),
        TaskTiming::Early
    ));

    // On time: within 24hrs before due
    assert!(matches!(
        XPCalculator::determine_timing(Some(now + 12 * 3600), now),
        TaskTiming::OnTime
    ));

    // Grace period: <24hrs late
    assert!(matches!(
        XPCalculator::determine_timing(Some(now - 12 * 3600), now),
        TaskTiming::GracePeriod
    ));

    // Late: >24hrs late
    assert!(matches!(
        XPCalculator::determine_timing(Some(now - 48 * 3600), now),
        TaskTiming::Late
    ));

    // No due date
    assert!(matches!(
        XPCalculator::determine_timing(None, now),
        TaskTiming::NoDueDate
    ));
}

#[test]
fn test_gold_calculation() {
    // Challenge 1: 4-6 gold
    for _ in 0..100 {
        let gold = GoldCalculator::calculate(1);
        assert!(gold >= 4 && gold <= 6);
    }

    // Challenge 5: 20-30 gold
    for _ in 0..100 {
        let gold = GoldCalculator::calculate(5);
        assert!(gold >= 20 && gold <= 30);
    }

    // Challenge 10: 40-60 gold
    for _ in 0..100 {
        let gold = GoldCalculator::calculate(10);
        assert!(gold >= 40 && gold <= 60);
    }
}

#[test]
fn test_drop_chances() {
    // Challenge 1: 32% drop chance
    assert!((LootSystem::drop_chance(1) as f64 - 32.0).abs() < 0.1);

    // Challenge 5: 40% drop chance
    assert!((LootSystem::drop_chance(5) as f64 - 40.0).abs() < 0.1);

    // Challenge 10: 50% drop chance
    assert!((LootSystem::drop_chance(10) as f64 - 50.0).abs() < 0.1);
}

#[test]
fn test_loot_distribution() {
    let mut gold_count = 0;
    let mut normal_count = 0;
    let mut heroic_count = 0;
    let mut epic_count = 0;

    // Simulate 1000 drops
    for _ in 0..1000 {
        if let Some(loot) = LootSystem::roll_for_loot(10) {
            match loot {
                LootDrop::Gold(amount) => {
                    assert!(amount >= 10 && amount <= 50);
                    gold_count += 1;
                }
                LootDrop::Reward { tier, .. } => match tier {
                    RewardTier::Normal => normal_count += 1,
                    RewardTier::Heroic => heroic_count += 1,
                    RewardTier::Epic => epic_count += 1,
                    RewardTier::Legendary => panic!("the roll must never produce Legendary"),
                },
            }
        }
    }

    // Verify approximate distribution
    let total_drops = gold_count + normal_count + heroic_count + epic_count;
    assert!(gold_count > 0);
    assert!(total_drops > 400);
}

#[test]
fn test_drop_decision_boundaries() {
    // Challenge 1: 32% chance, so rolls 0..=31 drop and 32..=99 do not.
    assert!(LootSystem::drop_decision(31, 1));
    assert!(!LootSystem::drop_decision(32, 1));
    // Challenge 10: 50% chance.
    assert!(LootSystem::drop_decision(49, 10));
    assert!(!LootSystem::drop_decision(50, 10));
    // A rating large enough caps the chance at 100%: every roll drops.
    assert!(LootSystem::drop_decision(99, 255));
    assert!(LootSystem::roll_for_loot(255).is_some());
}

#[test]
fn test_loot_table_exact() {
    // Below 70 the drawn gold amount comes back unchanged.
    assert!(matches!(LootSystem::loot_from_rolls(0, 25, 1), LootDrop::Gold(25)));
    assert!(matches!(LootSystem::loot_from_rolls(69, 10, 2), LootDrop::Gold(10)));
    // 70..=89 is a Normal reward with the name slot applied.
    match LootSystem::loot_from_rolls(70, 10, 0) {
        LootDrop::Reward { tier, name } => {
            assert_eq!(tier, RewardTier::Normal);
            assert_eq!(name, "Coffee Break");
        }
        _ => panic!("expected a Normal reward"),
    }
    match LootSystem::loot_from_rolls(89, 10, 2) {
        LootDrop::Reward { tier, name } => {
            assert_eq!(tier, RewardTier::Normal);
            assert_eq!(name, "Snack Time");
        }
        _ => panic!("expected a Normal reward"),
    }
    // 90..=97 is Heroic.
    match LootSystem::loot_from_rolls(90, 10, 1) {
        LootDrop::Reward { tier, name } => {
            assert_eq!(tier, RewardTier::Heroic);
            assert_eq!(name, "Treat Meal");
        }
        _ => panic!("expected a Heroic reward"),
    }
    match LootSystem::loot_from_rolls(97, 10, 0) {
        LootDrop::Reward { tier, .. } => assert_eq!(tier, RewardTier::Heroic),
        _ => panic!("expected a Heroic reward"),
    }
    // The last two percent are Epic.
    match LootSystem::loot_from_rolls(98, 10, 2) {
        LootDrop::Reward { tier, name } => {
            assert_eq!(tier, RewardTier::Epic);
            assert_eq!(name, "Weekend Adventure");
        }
        _ => panic!("expected an Epic reward"),
    }
    match LootSystem::loot_from_rolls(99, 10, 0) {
        LootDrop::Reward { tier, name } => {
            assert_eq!(tier, RewardTier::Epic);
            assert_eq!(name, "Day Off");
        }
        _ => panic!("expected an Epic reward"),
    }
}

#[test]
fn test_loot_rates_large_sample() {
    let trials = 20000;
    let mut drops = 0usize;
    let mut gold_drops = 0usize;
    for _ in 0..trials {
        if let Some(loot) = LootSystem::roll_for_loot(10) {
            drops += 1;
            if matches!(loot, LootDrop::Gold(_)) {
                gold_drops += 1;
            }
        }
    }
    // Drop chance for challenge 10 is 50%: expect 45-55% over a large sample.
    let rate = drops as f64 / trials as f64;
    assert!(rate > 0.45 && rate < 0.55, "drop rate was {}", rate);
    // Of the drops, the gold bonus dominates at ~70%.
    let gold_share = gold_drops as f64 / drops as f64;
    assert!(gold_share > 0.6 && gold_share < 0.8, "gold share was {}", gold_share);
}

#[test]
fn test_stat_growth_at_base_and_cap() {
    // At the base value 10.0 the multiplier is exactly 1: a gain lands whole.
    let mut stats = Stats::new();
    stats.increase_stat(StatType::STR, 500);
    assert_eq!(stats.strength, 10500);

    // Midway (value 54.5, progress 0.5) the multiplier is exactly 1.25.
    let mut stats = Stats::new();
    stats.strength = 54500;
    stats.increase_stat(StatType::STR, 500);
    assert_eq!(stats.strength, 54900);

    // At the cap the multiplier is exactly 2, and the value stays clamped.
    let mut stats = Stats::new();
    stats.strength = 99000;
    stats.increase_stat(StatType::STR, 500);
    assert_eq!(stats.strength, 99000);

    // Close to the cap the halved gain is applied, then clamped at 99.0.
    let mut stats = Stats::new();
    stats.strength = 98990;
    stats.increase_stat(StatType::STR, 500);
    assert_eq!(stats.strength, 99000);
}

#[test]
fn test_character_progression() {
    let mut hero = Character::new("Tester".to_string(), Class::Warrior);
    assert_eq!(hero.level, 1);
    assert_eq!(hero.total_xp, 0);
    assert_eq!(hero.gold, 0);
    assert_eq!(hero.stats.strength, 10000);

    hero.add_xp(427);
    assert_eq!(hero.level, 1);
    hero.add_xp(1);
    assert_eq!(hero.level, 2);

    hero.add_gold(75);
    assert_eq!(hero.gold, 75);

    hero.complete_task(10, Some(StatType::STR), Some(StatType::CON));
    assert_eq!(hero.tasks_completed, 1);
    // Primary gain 0.5 lands whole at the base value, secondary 0.25 likewise.
    assert_eq!(hero.stats.strength, 10500);
    assert_eq!(hero.stats.constitution, 10250);
    assert_eq!(hero.stats.get_stat(StatType::STR), 10);

    assert_eq!(hero.xp_to_next_level(), 1004 - 428);
    let (into, width) = hero.xp_progress();
    assert_eq!(into, 0);
    assert_eq!(width, 1004 - 428);
}

#[test]
fn test_gold_saturates() {
    let mut hero = Character::new("Croesus".to_string(), Class::Rogue);
    hero.add_gold(u32::MAX - 10);
    hero.add_gold(100);
    assert_eq!(hero.gold, u32::MAX);
}

#[test]
fn test_class_catalog() {
    assert_eq!(Class::all().len(), 5);
    assert_eq!(Class::Warrior.name(), "Warrior");
    assert_eq!(Class::Monk.description(), "Disciplined and wise");
}
