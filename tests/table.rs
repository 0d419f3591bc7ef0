use cardroom::Nickname;
use cardroom::Table;
use cardroom::TableEventType;
use cardroom::TableSpecification;
use cardroom::TableSpecificationError;

#[test]
fn table_specification_bounds() {
    assert!(matches!(TableSpecification::new(1), Err(TableSpecificationError::NotEnoughSeats { found: 1 })));
    assert!(matches!(TableSpecification::new(0), Err(TableSpecificationError::NotEnoughSeats { found: 0 })));
    assert!(matches!(TableSpecification::new(11), Err(TableSpecificationError::TooManySeats { found: 11 })));
    assert_eq!(TableSpecification::new(2).unwrap().seat_count(), 2);
    assert_eq!(TableSpecification::new(10).unwrap().seat_count(), 10);
}

#[test]
fn table_sit_down_and_stand_up() {
    let spec = TableSpecification::new(3).unwrap();
    let mut table = Table::new(&spec);
    assert_eq!(table.seat_count(), 3);
    assert_eq!(table.player_count(), 0);
    assert!(table.has_free_seat());
    assert!(!table.can_start_game());
    table.sit_down(1, Nickname::new("a").unwrap(), 1500);
    table.sit_down(2, Nickname::new("b").unwrap(), 700);
    assert!(table.has_player(1));
    assert!(table.has_player(2));
    assert!(!table.has_player(3));
    assert!(table.can_start_game());
    table.stand_up(1);
    assert!(!table.has_player(1));
    assert_eq!(table.player_count(), 1);
    table.sit_down(3, Nickname::new("c").unwrap(), 10);
    table.sit_down(4, Nickname::new("d").unwrap(), 10);
    assert!(!table.has_free_seat());
    table.start_game();
    let events = table.collect_events();
    let kinds: Vec<TableEventType> = events.into_iter().map(|e| e.event_type).collect();
    assert_eq!(kinds, vec![
        TableEventType::PlayerSeated { nickname: Nickname::new("a").unwrap(), stack: 1500, position: 0 },
        TableEventType::PlayerSeated { nickname: Nickname::new("b").unwrap(), stack: 700, position: 1 },
        TableEventType::PlayerLeft { position: 0 },
        TableEventType::PlayerSeated { nickname: Nickname::new("c").unwrap(), stack: 10, position: 0 },
        TableEventType::PlayerSeated { nickname: Nickname::new("d").unwrap(), stack: 10, position: 2 },
        TableEventType::GameStarted { button: 0 },
    ]);
    assert!(table.collect_events().is_empty());
    assert_eq!(table.spec(), spec);
}
