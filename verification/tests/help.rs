use econ_bot::commands::help::{find_command, format_params, help, CommandInfo, CommandParam, HelpReply};

fn cmd(name: &str, aliases: &[&str], description: Option<&str>, params: Vec<CommandParam>, subs: Vec<CommandInfo>) -> CommandInfo {
    CommandInfo {
        name: name.to_string(),
        qualified_name: name.to_string(),
        aliases: aliases.iter().map(|a| a.to_string()).collect(),
        description: description.map(|d| d.to_string()),
        parameters: params,
        subcommands: subs,
    }
}

fn param(name: &str, required: bool) -> CommandParam {
    CommandParam { name: name.to_string(), required }
}

fn commands() -> Vec<CommandInfo> {
    let mut all = cmd("all", &[], Some("Displays global command usage metrics in an optional time period."), vec![], vec![]);
    all.qualified_name = "stats all".to_string();
    vec![
        cmd("balance", &["bal"], Some("Displays your wallet and bank balance"), vec![param("member", false)], vec![]),
        cmd("deposit", &["dep"], None, vec![param("amount", true)], vec![]),
        cmd("stats", &[], Some("Displays command usage metrics."), vec![], vec![all]),
    ]
}

#[test]
fn find_by_name_and_alias() {
    let cs = commands();
    let (c, word, rest) = find_command(&cs, "bal", false).unwrap();
    assert_eq!(c.name, "balance");
    assert_eq!(word, "bal");
    assert_eq!(rest, "");
    let (c, _, rest) = find_command(&cs, "deposit  all", false).unwrap();
    assert_eq!(c.name, "deposit");
    assert_eq!(rest, "all");
}

#[test]
fn find_descends_into_subcommands() {
    let cs = commands();
    let (c, word, rest) = find_command(&cs, "stats all extra words", false).unwrap();
    assert_eq!(c.qualified_name, "stats all");
    assert_eq!(word, "all");
    assert_eq!(rest, "extra words");
    let (c, word, rest) = find_command(&cs, "stats\tnothing", false).unwrap();
    assert_eq!(c.name, "stats");
    assert_eq!(word, "stats");
    assert_eq!(rest, "nothing");
}

#[test]
fn find_with_and_without_case() {
    let cs = commands();
    assert!(find_command(&cs, "BAL", false).is_none());
    assert_eq!(find_command(&cs, "BAL", true).unwrap().0.name, "balance");
    assert!(find_command(&cs, "withdraw", true).is_none());
    assert!(find_command(&cs, "", false).is_none());
}

#[test]
fn params_are_listed_in_brackets() {
    let c = cmd("give", &[], None, vec![param("member", false), param("amount", true)], vec![]);
    assert_eq!(format_params(&c), "[member] <amount> ");
    assert_eq!(format_params(&cmd("help", &[], None, vec![], vec![])), "");
}

#[test]
fn help_lists_every_command() {
    let cs = commands();
    match help(&cs, None, "Econ") {
        HelpReply::Card { title, description } => {
            assert_eq!(title, "Econ Help");
            assert_eq!(
                description,
                "**balance [member] **\nDisplays your wallet and bank balance\n\n**deposit <amount> **\nNo description provided\n\n**stats **\nDisplays command usage metrics."
            );
        }
        HelpReply::NotFound { .. } => panic!("root help is a card"),
    }
}

#[test]
fn help_for_one_command() {
    let cs = commands();
    match help(&cs, Some("dep"), "Econ") {
        HelpReply::Card { title, description } => {
            assert_eq!(title, "deposit <amount> ");
            assert_eq!(description, "No description provided");
        }
        HelpReply::NotFound { .. } => panic!("dep names deposit"),
    }
    match help(&cs, Some("stats"), "Econ") {
        HelpReply::Card { title, description } => {
            assert_eq!(title, "stats ");
            assert_eq!(description, "Displays command usage metrics.");
        }
        HelpReply::NotFound { .. } => panic!("stats exists"),
    }
}

#[test]
fn help_for_a_subcommand_by_its_full_name() {
    let cs = commands();
    for query in ["stats all", "stats all extra words", "stats  all"] {
        match help(&cs, Some(query), "Econ") {
            HelpReply::Card { title, description } => {
                assert_eq!(title, "stats all ");
                assert_eq!(description, "Displays global command usage metrics in an optional time period.");
            }
            HelpReply::NotFound { .. } => panic!("stats all exists"),
        }
    }
    match help(&cs, Some("stats nothing"), "Econ") {
        HelpReply::Card { title, .. } => assert_eq!(title, "stats "),
        HelpReply::NotFound { .. } => panic!("stats exists"),
    }
}

#[test]
fn help_for_unknown_command() {
    let cs = commands();
    match help(&cs, Some("nope at all"), "Econ") {
        HelpReply::NotFound { message } => assert_eq!(message, "Command nope at all not found"),
        HelpReply::Card { .. } => panic!("no such command"),
    }
}
