use knx_home::config::{actor, Config, Switch};
use knx_home::httpserver::{
    actor_request, create_response_error, response_message, route, static_content_type, static_file, Route,
};
use knx_home::knx::Command;

fn config() -> Config {
    let mut c = Config::default();
    c.actors.insert(
        "lamp".to_string(),
        actor {
            name: "Lamp".to_string(),
            room_id: "kitchen".to_string(),
            commands: vec!["on".to_string(), "off".to_string(), "dim-7".to_string()],
            eibaddr: "0/0/5".to_string(),
        },
    );
    c.switches.insert(
        "fan".to_string(),
        Switch {
            name: "Fan".to_string(),
            room_id: "bath".to_string(),
            eibaddr_command: "0/1/6".to_string(),
            eibaddr_status: "0/1/7".to_string(),
            commands: vec!["on".to_string()],
        },
    );
    c.switches.insert(
        "lamp".to_string(),
        Switch {
            name: "Lamp switch".to_string(),
            room_id: "kitchen".to_string(),
            eibaddr_command: "0/2/6".to_string(),
            eibaddr_status: "0/2/7".to_string(),
            commands: vec!["shutter-50".to_string()],
        },
    );
    c
}

fn actor_route(path: &str) -> Option<(String, String)> {
    match route(path) {
        Route::Actor { id, command } => Some((id, command)),
        _ => None,
    }
}

#[test]
fn static_routes() {
    match route("/static//img/a.png") {
        Route::Static(t) => assert_eq!(t, "/img/a.png"),
        other => panic!("{:?}", other),
    }
    match route("/static/a.png") {
        Route::Static(t) => assert_eq!(t, "a.png"),
        other => panic!("{:?}", other),
    }
    match route("/actor/static/x ") {
        Route::Static(t) => assert_eq!(t, "x"),
        other => panic!("{:?}", other),
    }
}

#[test]
fn actor_routes() {
    assert_eq!(actor_route("/actor/lamp/on"), Some(("lamp".to_string(), "on".to_string())));
    assert_eq!(actor_route("/actor/lamp/dim/50"), Some(("lamp".to_string(), "dim/50".to_string())));
    assert_eq!(actor_route("/x/actor/ lamp /\ton "), Some(("lamp".to_string(), "on".to_string())));
    assert_eq!(actor_route("/actor//"), Some(("".to_string(), "".to_string())));
    assert!(actor_route("/actor/lamp").is_none());
}

#[test]
fn plain_routes() {
    assert!(matches!(route("/"), Route::Index));
    assert!(matches!(route("/style.css"), Route::Style));
    assert!(matches!(route("/index.html"), Route::NotFound));
    assert!(matches!(route("/actor/lamp"), Route::NotFound));
    assert!(matches!(route(""), Route::NotFound));
}

#[test]
fn content_types() {
    assert_eq!(static_content_type("/static//a.png"), "image/png");
    assert_eq!(static_content_type("/static//a.css"), "text/css");
    assert_eq!(static_content_type("/static//a.js"), "text/javascript");
    assert_eq!(static_content_type("/static//a.html"), "unknown");
    assert_eq!(static_content_type(".png"), "image/png");
}

#[test]
fn static_files() {
    assert_eq!(static_file("/img/a.png"), Some("img/a.png".to_string()));
    assert_eq!(static_file("/"), Some("".to_string()));
    assert_eq!(static_file("a.png"), None);
    assert_eq!(static_file(""), None);
}

#[test]
fn responses() {
    assert_eq!(response_message(Ok("sent command".to_string())), (200, "sent command".to_string()));
    assert_eq!(response_message(Err("bad".to_string())), (400, "bad".to_string()));
    assert_eq!(create_response_error("no".to_string()), (400, "no".to_string()));
}

#[test]
fn actor_requests() {
    let c = config();
    assert_eq!(
        actor_request(&c, &"lamp".to_string(), &"on".to_string()),
        Ok(("0/0/5".to_string(), Command::Switch(true)))
    );
    assert_eq!(
        actor_request(&c, &"fan".to_string(), &"on".to_string()),
        Ok(("0/1/6".to_string(), Command::Switch(true)))
    );
    // an actor that does not list the command hides a switch of the same name
    assert_eq!(
        actor_request(&c, &"lamp".to_string(), &"shutter-50".to_string()),
        Err("no actor/switch found for command 'shutter-50'".to_string())
    );
    assert_eq!(
        actor_request(&c, &"fan".to_string(), &"off".to_string()),
        Err("no actor/switch found for command 'off'".to_string())
    );
    assert_eq!(
        actor_request(&c, &"nobody".to_string(), &"on".to_string()),
        Err("no actor/switch found for command 'on'".to_string())
    );
    assert_eq!(
        actor_request(&c, &"lamp".to_string(), &"dim-7".to_string()),
        Err("unknown string 'dim-7'".to_string())
    );
}
