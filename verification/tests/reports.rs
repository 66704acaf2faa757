use econ_bot::commands::general::{about_information, about_statistics, hours_minutes_seconds};
use econ_bot::commands::owner::{give, additem, sql};
use econ_bot::commands::stats::{memory_megabytes, pool_report, all, usage_table};
use econ_bot::database::{Command, ExploreItem};

fn logged(command: &str, author_id: i64) -> Command {
    Command {
        guild_id: 1,
        author_id,
        used: 0,
        prefix: "!".to_string(),
        command: command.to_string(),
        slash: false,
        failed: None,
    }
}

#[test]
fn usage_report_table() {
    let log = vec![logged("help", 12), logged("balance", -3)];
    assert_eq!(
        all(&log),
        "```\n+---------+--------+\n| command | author |\n+---------+--------+\n|  help   |   12   |\n| balance |   -3   |\n+---------+--------+```"
    );
    assert_eq!(usage_table(&Vec::new()).render(), "+---------+--------+\n| command | author |\n+---------+--------+\n+---------+--------+");
}

#[test]
fn memory_grouped_by_thousands() {
    assert_eq!(memory_megabytes(5 * 1024 * 1024 * 1024), "5,120");
    assert_eq!(memory_megabytes(1_234_567 * 1024 * 1024), "1,234,567");
    assert_eq!(memory_megabytes(999 * 1024 * 1024 + 1), "999");
    assert_eq!(memory_megabytes(0), "0");
    assert_eq!(memory_megabytes(1_000_005 * 1024 * 1024), "1,000,005");
}

#[test]
fn pool_report_lines() {
    assert_eq!(pool_report(5, 2, false), "Connections: 5\nConnections Idle: 2\nPool Closed: false");
    assert_eq!(pool_report(0, 0, true), "Connections: 0\nConnections Idle: 0\nPool Closed: true");
}

#[test]
fn query_report_table() {
    let report = sql(
        vec!["name".to_string(), "coins".to_string()],
        vec![vec!["ann".to_string(), "1000".to_string()], vec!["bo".to_string(), "5".to_string()]],
    );
    assert_eq!(report, "```\n+------+-------+\n| name | coins |\n+------+-------+\n| ann  | 1000  |\n|  bo  |   5   |\n+------+-------+```");
}

#[test]
fn item_added_card() {
    let fields = additem("golden apple", "legendary", "<:ga:77>", 500).unwrap();
    let pairs: Vec<(String, String)> = fields.into_iter().map(|f| (f.name, f.value)).collect();
    assert_eq!(
        pairs,
        vec![
            ("Name".to_string(), "Golden Apple".to_string()),
            ("Tier".to_string(), "Legendary".to_string()),
            ("Emoji".to_string(), "<:ga:77>".to_string()),
            ("Price".to_string(), "500".to_string()),
        ]
    );
}

#[test]
fn give_reply_text() {
    assert_eq!(give("Bob", 25), "Gave Bob 25 <:coin:1119247275093413940>");
    assert_eq!(give("Ann", -3), "Gave Ann -3 <:coin:1119247275093413940>");
}

#[test]
fn uptime_split() {
    assert_eq!(hours_minutes_seconds(7265), (2, 1, 5));
    assert_eq!(hours_minutes_seconds(59), (0, 0, 59));
}

#[test]
fn about_fields() {
    assert_eq!(
        about_information(7265),
        "\n                **Developer**: void_ux\n                **Uptime**: 2 hours, 1 minutes and 5 seconds\n                "
    );
    assert_eq!(
        about_statistics(3, 120, 50 * 1024 * 1024 + 7),
        "\n                **Servers**: 3\n                **Users**: 120\n                **RAM**: 50 Mb\n                **Latency**: N/A\n                "
    );
}

#[test]
fn explore_item_emoji_markup() {
    let mut it = ExploreItem {
        id: 3,
        name: "stick".to_string(),
        tier: "common".to_string(),
        sell_price: 2,
        health: Some(4),
        emoji_id: 1120190421067374642,
        emoji_name: "stick".to_string(),
    };
    assert_eq!(it.emoji(), "<:stick:1120190421067374642>");
    it.emoji_id = -5;
    assert_eq!(it.emoji(), "<:stick:-5>");
}

#[test]
fn item_with_an_unknown_tier_is_refused() {
    for tier in ["epic", "Rare", "LEGENDARY", "", "common "] {
        match additem("stick", tier, "<:s:1>", 2) {
            Err(message) => assert_eq!(
                message,
                format!("Unknown tier {}: an item's tier must be common, rare or legendary", tier)
            ),
            Ok(_) => panic!("{} is not a tier", tier),
        }
    }
    assert!(additem("stick", "common", "<:s:1>", 2).is_ok());
    assert!(additem("stick", "rare", "<:s:1>", 2).is_ok());
}
