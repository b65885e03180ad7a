use capitalist_robot::chart::{check_distance, enough_distant, saved_quantity, Chart, SavedQuantity};
use capitalist_robot::world::{Content, SlotRange, BANK_KIND, JOLLY_KIND};

fn bank(start: usize, end: usize) -> Content {
    Content::Bank(SlotRange { start, end })
}

#[test]
fn saved_quantities() {
    assert_eq!(saved_quantity(&Content::Rock(3)), SavedQuantity::Quantity(3));
    assert_eq!(
        saved_quantity(&bank(1, 4)),
        SavedQuantity::ContentRange(SlotRange { start: 1, end: 4 })
    );
    assert_eq!(saved_quantity(&Content::Building), SavedQuantity::Quantity(0));
}

#[test]
fn save_then_read_back() {
    let mut chart = Chart::new();
    assert!(chart.entries_of(BANK_KIND).is_empty());
    chart.save(&bank(0, 5), (3, 4));
    chart.save(&Content::JollyBlock(0), (7, 7));
    chart.save(&bank(2, 6), (10, 1));
    assert_eq!(
        chart.entries_of(BANK_KIND),
        vec![
            ((3, 4), SavedQuantity::ContentRange(SlotRange { start: 0, end: 5 })),
            ((10, 1), SavedQuantity::ContentRange(SlotRange { start: 2, end: 6 })),
        ]
    );
    assert_eq!(chart.entries_of(JOLLY_KIND), vec![((7, 7), SavedQuantity::Quantity(0))]);
}

#[test]
fn save_overwrites_in_place() {
    let mut chart = Chart::new();
    chart.save(&bank(0, 5), (3, 4));
    chart.save(&bank(0, 5), (8, 8));
    chart.save(&bank(4, 5), (3, 4));
    assert_eq!(
        chart.entries_of(BANK_KIND),
        vec![
            ((3, 4), SavedQuantity::ContentRange(SlotRange { start: 4, end: 5 })),
            ((8, 8), SavedQuantity::ContentRange(SlotRange { start: 0, end: 5 })),
        ]
    );
}

#[test]
fn remove_forgets_only_that_place() {
    let mut chart = Chart::new();
    chart.save(&bank(0, 5), (3, 4));
    chart.save(&Content::JollyBlock(0), (3, 4));
    assert!(chart.remove(BANK_KIND, (3, 4)));
    assert!(!chart.remove(BANK_KIND, (3, 4)));
    assert!(chart.entries_of(BANK_KIND).is_empty());
    assert_eq!(chart.entries_of(JOLLY_KIND), vec![((3, 4), SavedQuantity::Quantity(0))]);
}

#[test]
fn distance_checks_at_thirty() {
    let list = vec![((0, 0), SavedQuantity::Quantity(0)), ((40, 40), SavedQuantity::Quantity(0))];
    assert!(check_distance(&list, (15, 15)));
    assert!(!check_distance(&list, (15, 14)));
    assert!(check_distance(&Vec::new(), (0, 0)));
    let mut chart = Chart::new();
    assert!(enough_distant((5, 5), &chart));
    chart.save(&bank(0, 3), (10, 10));
    assert!(!enough_distant((20, 20), &chart));
    assert!(enough_distant((25, 25), &chart));
    chart.save(&Content::JollyBlock(0), (40, 39));
    assert!(!enough_distant((25, 25), &chart));
    chart.save(&Content::Rock(3), (60, 61));
    assert!(enough_distant((60, 60), &chart));
}
