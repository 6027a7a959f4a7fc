use ddts_server::application::{next_step, ReadEvent, Step};
use ddts_server::protocol::Action;
use ddts_server::shutdown::{Shutdown, ShutdownSuccess};
use ddts_server::start::{Start, StartSuccess};
use ddts_server::state::SystemHappening;
use ddts_server::application::ip_allowed;
use ddts_server::config::Env;
use ddts_server::errors::Errors;
use ddts_server::handlers::{
    fifo_name, get_info, gimme_port, has_free_port, logfile_path, plan_start, server_args,
    shutdown_notice, shutdown_server, start_server, stats, stats_with,
};
use ddts_server::protocol::{ResponseCode, ResponseData};
use ddts_server::random::{generate_password, generate_password_string, random_in};
use ddts_server::servers_handler::{launch_settings, shutdown_outcome, GameServersHandler};
use ddts_server::state::{Info, State};
use ddts_server::text::decimal_string;

fn is_password(p: &str) -> bool {
    p.chars().count() == 20 && p.chars().all(|c| c.is_ascii_alphanumeric())
}

fn filled(max: u32, servers: &[(usize, usize, u16)]) -> State {
    let mut s = State::new(max);
    for (slot, hid, port) in servers {
        s.add_server(*slot, *hid, *port, 100 + *slot as u32, format!("pw{}", slot), format!("map{}", slot));
    }
    s
}

#[test]
fn env_names() {
    assert_eq!(Env::Dev.as_str(), "dev");
    assert_eq!(Env::Prod.as_str(), "prod");
}

#[test]
fn env_parsing_ignores_case() {
    assert_eq!(Env::try_from("dev".to_string()), Ok(Env::Dev));
    assert_eq!(Env::try_from("DEV".to_string()), Ok(Env::Dev));
    assert_eq!(Env::try_from("Prod".to_string()), Ok(Env::Prod));
    assert_eq!(Env::try_from("PROD".to_string()), Ok(Env::Prod));
    assert_eq!(Env::try_from("Dev".to_string()), Ok(Env::Dev));
    assert_eq!(
        Env::try_from("Staging".to_string()),
        Err("Staging is not supported environment, use either `dev` or `prod` >~<".to_string())
    );
}

#[test]
fn env_parsing_round_trip() {
    for e in [Env::Dev, Env::Prod] {
        assert_eq!(Env::try_from(e.as_str().to_string()), Ok(e));
        assert_eq!(Env::try_from(e.as_str().to_uppercase()), Ok(e));
    }
}

#[test]
fn env_unknown_name_is_refused() {
    assert_eq!(
        Env::try_from("staging".to_string()),
        Err("staging is not supported environment, use either `dev` or `prod` >~<".to_string())
    );
}

#[test]
fn allow_list_empty_admits_everybody() {
    assert!(ip_allowed(&vec![], &"10.0.0.1".to_string()));
}

#[test]
fn allow_list_admits_only_listed() {
    let list = vec!["127.0.0.1".to_string(), "10.0.0.2".to_string()];
    assert!(ip_allowed(&list, &"10.0.0.2".to_string()));
    assert!(!ip_allowed(&list, &"10.0.0.1".to_string()));
}

#[test]
fn decimal_rendering() {
    assert_eq!(decimal_string(0), "0");
    assert_eq!(decimal_string(7), "7");
    assert_eq!(decimal_string(1234567), "1234567");
    assert_eq!(decimal_string(u64::MAX), u64::MAX.to_string());
}

#[test]
fn new_table_is_empty() {
    let s = State::new(3);
    assert_eq!(s.get_info(), Info { used: 0, max: 3 });
    assert_eq!(s.empty_index(), Some(0));
    assert!(!s.is_port_taken(2000));
}

#[test]
fn table_without_slots_has_no_free_index() {
    let s = State::new(0);
    assert_eq!(s.empty_index(), None);
}

#[test]
fn adding_fills_slots_in_order() {
    let mut s = State::new(2);
    s.add_server(0, 42, 2100, 7, "pw".to_string(), "map".to_string());
    assert_eq!(s.empty_index(), Some(1));
    assert!(s.is_port_taken(2100));
    assert!(!s.is_port_taken(2101));
    assert_eq!(s.get_info(), Info { used: 1, max: 2 });
    s.add_server(1, 43, 2101, 8, "pw".to_string(), "map".to_string());
    assert_eq!(s.empty_index(), None);
    assert_eq!(s.get_info().used, 2);
}

#[test]
fn remove_gives_back_the_added_server() {
    let mut s = State::new(2);
    s.add_server(1, 42, 2100, 7, "secret".to_string(), "dm1".to_string());
    let srv = s.remove_server(42).expect("server present");
    assert_eq!(srv.happening_id, 42);
    assert_eq!(srv.port, 2100);
    assert_eq!(srv.pid, 7);
    assert_eq!(srv.password, "secret");
    assert_eq!(srv.map_name, "dm1");
    assert_eq!(s.get_info().used, 0);
    assert_eq!(s.empty_index(), Some(0));
    assert!(!s.is_port_taken(2100));
}

#[test]
fn remove_unknown_happening_changes_nothing() {
    let mut s = filled(2, &[(0, 1, 2001)]);
    assert!(s.remove_server(99).is_none());
    assert_eq!(s.get_info().used, 1);
    assert!(s.is_port_taken(2001));
}

#[test]
fn remove_takes_the_first_matching_slot() {
    let mut s = filled(3, &[(0, 5, 2001), (2, 5, 2003)]);
    let srv = s.remove_server(5).unwrap();
    assert_eq!(srv.port, 2001);
    assert!(s.is_port_taken(2003));
    assert_eq!(s.empty_index(), Some(0));
}

#[test]
fn stats_list_servers_in_slot_order() {
    let s = filled(4, &[(3, 30, 2003), (1, 10, 2001)]);
    let st = s.stats_with(1000, 400);
    assert_eq!(st.system.total_memory, 1000);
    assert_eq!(st.system.free_memory, 400);
    let ports: Vec<u16> = st.happenings.iter().map(|h| h.port).collect();
    assert_eq!(ports, vec![2001, 2003]);
    assert_eq!(st.happenings[0].pid, 101);
    assert_eq!(st.happenings[0].map_name, "map1");
    assert_eq!(st.happenings[1].password, "pw3");
}

#[test]
fn usage_equals_running_servers() {
    let mut s = filled(3, &[(0, 1, 2001), (1, 2, 2002), (2, 3, 2003)]);
    s.remove_server(2);
    assert_eq!(s.get_info().used as usize, s.stats_with(0, 0).happenings.len());
}

#[test]
fn gimme_port_is_free_and_in_range() {
    let s = filled(2, &[(0, 1, 2000)]);
    for _ in 0..50 {
        let p = gimme_port(&s);
        assert!((2000..3000).contains(&p));
        assert_ne!(p, 2000);
    }
}

#[test]
fn gimme_port_finds_the_last_free_port() {
    let mut s = State::new(1000);
    let mut slot = 0;
    for port in 2000u16..3000 {
        if port != 2500 {
            s.add_server(slot, slot, port, 1, String::new(), String::new());
            slot += 1;
        }
    }
    assert!(has_free_port(&s));
    for _ in 0..20 {
        assert_eq!(gimme_port(&s), 2500);
    }
    s.add_server(slot, slot, 2500, 1, String::new(), String::new());
    assert!(!has_free_port(&s));
}

#[test]
fn start_texts() {
    assert_eq!(logfile_path("2024-01-01T00:00:00+00:00", 17), "./logs/2024-01-01T00:00:00+00:00_17.log");
    assert_eq!(fifo_name(3), "3.fifo");
    assert_eq!(
        server_args(3, 17, 2345, "abc", "ctf5", "./logs/t_17.log", "3.fifo"),
        "sv_id 3; sv_happening_id 17; sv_shutdown_after_finish 1; sv_port 2345; password abc; sv_map ctf5; logfile ./logs/t_17.log; sv_input_fifo 3.fifo"
    );
}

#[test]
fn plan_start_uses_first_free_slot() {
    let s = filled(3, &[(0, 1, 2001)]);
    let plan = plan_start(&s, 9, "dm1").expect("a slot is free");
    assert_eq!(plan.slot, 1);
    assert!((2000..3000).contains(&plan.port));
    assert_ne!(plan.port, 2001);
    assert!(is_password(&plan.password));
    assert!(plan.logfile.starts_with("./logs/"));
    assert!(plan.logfile.ends_with("_9.log"));
    assert!(plan.logfile.len() > "./logs/_9.log".len());
    assert_eq!(plan.fifo, "1.fifo");
    assert_eq!(
        plan.server_args,
        format!(
            "sv_id 1; sv_happening_id 9; sv_shutdown_after_finish 1; sv_port {}; password {}; sv_map dm1; logfile {}; sv_input_fifo 1.fifo",
            plan.port, plan.password, plan.logfile
        )
    );
}

#[test]
fn plan_start_without_free_slot() {
    let s = filled(1, &[(0, 1, 2001)]);
    assert!(plan_start(&s, 9, "dm1").is_none());
}

#[test]
fn start_server_records_launched_server() {
    let mut s = State::new(2);
    let plan = plan_start(&s, 9, "dm1").unwrap();
    let port = plan.port;
    let password = plan.password.clone();
    let r = start_server(&mut s, plan, 9, "dm1".to_string(), Some(4242));
    assert_eq!(r.code, ResponseCode::Success);
    match r.data {
        Some(ResponseData::Start { password: p, port: q }) => {
            assert_eq!(p, password);
            assert_eq!(q, port as u32);
        }
        other => panic!("unexpected data {:?}", other),
    }
    assert_eq!(s.get_info().used, 1);
    assert!(s.is_port_taken(port));
    let st = s.stats_with(0, 0);
    assert_eq!(st.happenings[0].pid, 4242);
    assert_eq!(st.happenings[0].map_name, "dm1");
}

#[test]
fn start_server_failed_launch() {
    let mut s = State::new(2);
    let plan = plan_start(&s, 9, "dm1").unwrap();
    let r = start_server(&mut s, plan, 9, "dm1".to_string(), None);
    assert_eq!(r.code, ResponseCode::WhoopsieDaisy);
    assert!(r.data.is_none());
    assert_eq!(s.get_info().used, 0);
}

#[test]
fn shutdown_server_answers_with_identifier() {
    let mut s = filled(2, &[(1, 77, 2077)]);
    assert!(s.serves_happening(77));
    assert!(!s.serves_happening(78));
    let (srv, r) = shutdown_server(&mut s, 77);
    assert_eq!(srv.port, 2077);
    assert_eq!(r.code, ResponseCode::Success);
    assert!(matches!(r.data, Some(ResponseData::Shutdown { id: 77 })));
    assert_eq!(s.get_info().used, 0);
    assert!(!s.serves_happening(77));
}

#[test]
fn shutdown_identifier_is_cut_to_32_bits() {
    let r = shutdown_notice((1usize << 32) + 5);
    assert!(matches!(r.data, Some(ResponseData::Shutdown { id: 5 })));
}

#[test]
fn info_response() {
    let s = filled(5, &[(0, 1, 2001), (4, 2, 2002)]);
    let r = get_info(&s);
    assert_eq!(r.code, ResponseCode::Success);
    assert!(matches!(r.data, Some(ResponseData::Info { used: 2, max: 5 })));
}

#[test]
fn stats_response() {
    let s = filled(3, &[(2, 1, 2222), (0, 2, 2000)]);
    let r = stats_with(&s, 16, 8);
    assert_eq!(r.code, ResponseCode::Success);
    match r.data {
        Some(ResponseData::Stats { system, happenings }) => {
            assert_eq!(system.total_memory, 16);
            assert_eq!(system.free_memory, 8);
            let ports: Vec<u32> = happenings.iter().map(|h| h.port).collect();
            assert_eq!(ports, vec![2000, 2222]);
            assert_eq!(happenings[1].map_name, "map2");
        }
        other => panic!("unexpected data {:?}", other),
    }
}

#[test]
fn errors_as_json() {
    assert_eq!(Errors::BadData.to_string(), r#"{"status":"BAD_DATA"}"#);
    assert_eq!(Errors::AccessDenied.to_string(), r#"{"status":"ACCESS_DENIED"}"#);
    assert_eq!(Errors::Unknown.to_string(), r#"{"status":"SOMETHING_HAPPENNED_IDK_MYSELF"}"#);
    assert_eq!(Errors::Unknown.status(), "SOMETHING_HAPPENNED_IDK_MYSELF");
}

#[test]
fn passwords_are_twenty_alphanumerics() {
    for _ in 0..20 {
        assert!(is_password(&generate_password()));
        assert!(is_password(&generate_password_string()));
    }
}

#[test]
fn random_in_stays_in_range() {
    for _ in 0..200 {
        let r = random_in(5, 8);
        assert!((5..8).contains(&r));
    }
}

#[test]
fn direct_launch_bookkeeping() {
    let mut h = GameServersHandler::new();
    let plan = h.plan_launch("dm2");
    assert!((1000..=9999).contains(&plan.port));
    assert!(is_password(&plan.password));
    assert_eq!(plan.server_string, format!("sv_port {}; password {}; sv_map dm2", plan.port, plan.password));
    assert_eq!(h.start(3, plan.port, plan.password.clone(), Some(555)), Ok((plan.port, plan.password.clone())));
    assert!(h.knows(3));
    assert_eq!(h.shutdown(3), 555);
    assert!(!h.knows(3));
}

#[test]
fn direct_launch_failure() {
    let mut h = GameServersHandler::new();
    assert_eq!(h.start(1, 1234, "x".to_string(), None), Err(Errors::Unknown));
    assert!(!h.knows(1));
    assert_eq!(shutdown_outcome(true), Ok(()));
    assert_eq!(shutdown_outcome(false), Err(Errors::Unknown));
}

#[test]
fn launch_settings_text() {
    assert_eq!(launch_settings(1000, "pw", "m"), "sv_port 1000; password pw; sv_map m");
}

#[test]
fn connection_steps() {
    assert_eq!(next_step(ReadEvent::Closed), Step::Stop);
    assert_eq!(next_step(ReadEvent::Failed), Step::Stop);
    assert_eq!(next_step(ReadEvent::Unparsable), Step::Stop);
    assert_eq!(next_step(ReadEvent::Request(Action::Unknown)), Step::Stop);
    assert_eq!(next_step(ReadEvent::Request(Action::Stats)), Step::Serve(Action::Stats));
    assert_eq!(next_step(ReadEvent::Request(Action::Start)), Step::Serve(Action::Start));
}

#[test]
fn shutdown_command_text() {
    let s = filled(1, &[(0, 1, 2001)]);
    let mut s = s;
    let srv = s.remove_server(1).unwrap();
    assert_eq!(srv.shutdown_command(), "shutdown Foo");
}

#[test]
fn info_into_response() {
    let r = Info { used: 4, max: 9 }.into_response();
    assert_eq!(r.code, ResponseCode::Success);
    assert!(matches!(r.data, Some(ResponseData::Info { used: 4, max: 9 })));
}

#[test]
fn happening_report_widens_port() {
    let h = SystemHappening { pid: 3, map_name: "m".to_string(), port: 65535, password: "p".to_string() };
    let r = h.into_report();
    assert_eq!(r.port, 65535u32);
    assert_eq!(r.pid, 3);
    assert_eq!(r.map_name, "m");
    assert_eq!(r.password, "p");
}

#[test]
fn add_then_remove_restores_table() {
    let mut s = filled(3, &[(0, 1, 2001)]);
    s.add_server(2, 50, 2050, 9, "p".to_string(), "m".to_string());
    assert!(s.is_port_taken(2050));
    let srv = s.remove_server(50).unwrap();
    assert_eq!((srv.port, srv.pid), (2050, 9));
    assert_eq!(s.get_info(), Info { used: 1, max: 3 });
    assert!(!s.is_port_taken(2050));
    assert!(s.is_port_taken(2001));
    assert_eq!(s.empty_index(), Some(1));
}

#[test]
fn json_message_structs() {
    let s = Start { action: "start".to_string(), map_name: "dm1".to_string(), id: 4 };
    assert_eq!(s.id, 4);
    let ok = StartSuccess { status: "OK".to_string(), password: "pw".to_string(), port: 2001 };
    assert_eq!(ok.port, 2001);
    let d = Shutdown { action: "shutdown".to_string(), id: 4 };
    assert_eq!(d.id, 4);
    let done = ShutdownSuccess { status: "OK".to_string() };
    assert_eq!(done.status, "OK");
}

#[test]
fn stats_reads_the_machine() {
    let mut s = filled(2, &[(1, 5, 2005)]);
    let st = s.stats();
    assert_eq!(st.happenings.len(), 1);
    assert_eq!(st.happenings[0].port, 2005);
    assert!(st.system.free_memory <= st.system.total_memory);
    let r = stats(&mut s);
    assert_eq!(r.code, ResponseCode::Success);
    assert_eq!(s.get_info(), Info { used: 1, max: 2 });
}

#[test]
fn started_servers_have_distinct_ports() {
    let mut s = State::new(5);
    let mut ports = Vec::new();
    for hid in 0..5 {
        let plan = plan_start(&s, hid, "m").unwrap();
        ports.push(plan.port);
        start_server(&mut s, plan, hid, "m".to_string(), Some(hid as u32));
    }
    let mut sorted = ports.clone();
    sorted.sort();
    sorted.dedup();
    assert_eq!(sorted.len(), 5);
    assert_eq!(s.get_info().used, 5);
}

#[test]
fn remove_after_add_restores_counter_from_any_table() {
    let mut s = filled(3, &[(0, 1, 2001), (2, 2, 2002)]);
    let before = s.get_info();
    s.add_server(1, 9, 2009, 4, "p".to_string(), "m".to_string());
    let srv = s.remove_server(9).unwrap();
    assert_eq!((srv.happening_id, srv.port, srv.pid), (9, 2009, 4));
    assert_eq!((srv.password.as_str(), srv.map_name.as_str()), ("p", "m"));
    assert_eq!(s.get_info(), before);
    assert_eq!(s.empty_index(), Some(1));
}
