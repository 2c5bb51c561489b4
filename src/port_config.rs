use vstd::prelude::*;

use crate::text::{parse_unsigned, unsigned_number};

verus! {

/// The port used when none is configured.
pub const DEFAULT_PORT: u16 = 8080;

/// The text of a port number in the form a `u16` is read from: an optional
/// `+`, then one or more decimal digits, of value at most 65535.
pub open spec fn port_number(cs: Seq<char>) -> Option<u16> {
    match unsigned_number(cs, 65535) {
        Some(v) => Some(v as u16),
        None => None,
    }
}

/// Reads a port number; see [`port_number`].
pub fn parse_port(s: &str) -> (r: Option<u16>)
    ensures
        r == port_number(s@),
{
    match parse_unsigned(s, 65535) {
        Some(v) => Some(v as u16),
        None => None,
    }
}

/// The port configured by a `PORT` value, or [`DEFAULT_PORT`] when it is
/// missing or not a port number.
pub fn port_from_setting(value: Option<&str>) -> (r: u16)
    ensures
        r == match value {
            Some(s) => match port_number(s@) {
                Some(p) => p,
                None => DEFAULT_PORT,
            },
            None => DEFAULT_PORT,
        },
{
    match value {
        Some(s) => match parse_port(s) {
            Some(p) => p,
            None => DEFAULT_PORT,
        },
        None => DEFAULT_PORT,
    }
}

pub const MISSING_PORT: &'static str = "PORT environment variable is not set. Render sets this automatically, but it's missing in your current environment.";

pub const HOST_SET: &'static str = "HOST environment variable is set. Make sure your application binds to 0.0.0.0, not localhost or 127.0.0.1.";

pub const ADVICE: &'static str = r#"
IMPORTANT: For Render deployment, always bind your web server to 0.0.0.0 (all interfaces), not localhost or 127.0.0.1.

Examples for different frameworks:

1. Raw std::net::TcpListener:
   let listener = TcpListener::bind(format!("0.0.0.0:{}", port))?;

2. Warp:
   warp::serve(routes).run(([0, 0, 0, 0], port)).await;

3. Hyper:
   let addr = ([0, 0, 0, 0], port).into();
   Server::bind(&addr).serve(make_svc).await?;

4. Rocket:
   let figment = rocket::Config::figment()
       .merge(("port", port))
       .merge(("address", "0.0.0.0"));
   rocket::custom(figment).mount("/", routes![index]).launch().await?;

5. Actix-web:
   HttpServer::new(|| App::new().route("/", web::get().to(index)))
       .bind(("0.0.0.0", port))?
       .run()
       .await?;

6. Axum:
   let addr = SocketAddr::from(([0, 0, 0, 0], port));
   axum::Server::bind(&addr).serve(app.into_make_service()).await?;
"#;

/// The text of the server-binding advice.
pub open spec fn binding_advice() -> Seq<char> {
    ADVICE@
}

/// Advice on binding a web server to all interfaces, with an example for
/// each common framework.
pub fn port_binding_advice() -> (r: String)
    ensures
        r@ == binding_advice(),
{
    String::from_str(ADVICE)
}

pub open spec fn missing_port_part(port: Option<Seq<char>>) -> Seq<Seq<char>> {
    if port is None {
        seq![MISSING_PORT@]
    } else {
        Seq::<Seq<char>>::empty()
    }
}

pub open spec fn conflict_part(port: Option<Seq<char>>, dashboard_port: Option<Seq<char>>) -> Seq<
    Seq<char>,
> {
    match (dashboard_port, port) {
        (Some(d), Some(p)) => if d != p {
            seq![port_conflict_text(d, p)]
        } else {
            Seq::<Seq<char>>::empty()
        },
        _ => Seq::<Seq<char>>::empty(),
    }
}

pub open spec fn host_part(host_is_set: bool) -> Seq<Seq<char>> {
    if host_is_set {
        seq![HOST_SET@]
    } else {
        Seq::<Seq<char>>::empty()
    }
}

/// The configuration problems seen in the `PORT`, `DASHBOARD_PORT` and
/// `HOST` settings, in that order.
pub open spec fn render_configuration_warnings(
    port: Option<Seq<char>>,
    dashboard_port: Option<Seq<char>>,
    host_is_set: bool,
) -> Seq<Seq<char>> {
    missing_port_part(port) + conflict_part(port, dashboard_port) + host_part(host_is_set)
}

pub open spec fn port_conflict_text(dashboard_port: Seq<char>, port: Seq<char>) -> Seq<char> {
    "DASHBOARD_PORT ("@ + dashboard_port + ") differs from PORT ("@ + port
        + "). This may cause issues on Render."@
}

pub open spec fn option_view(s: Option<String>) -> Option<Seq<char>> {
    match s {
        Some(s) => Some(s@),
        None => None,
    }
}

pub open spec fn texts(ws: Seq<String>) -> Seq<Seq<char>> {
    ws.map_values(|s: String| s@)
}

/// Checks the port settings for deployment: `port` and `dashboard_port` are
/// the values of `PORT` and `DASHBOARD_PORT`, `host_is_set` whether `HOST`
/// is set.
pub fn check_render_configuration(
    port: Option<String>,
    dashboard_port: Option<String>,
    host_is_set: bool,
) -> (r: Vec<String>)
    ensures
        texts(r@) == render_configuration_warnings(
            option_view(port),
            option_view(dashboard_port),
            host_is_set,
        ),
{
    let ghost p = option_view(port);
    let ghost d = option_view(dashboard_port);
    let mut warnings: Vec<String> = Vec::new();
    if port.is_none() {
        warnings.push(String::from_str(MISSING_PORT));
    }
    assert(texts(warnings@) =~= missing_port_part(p));
    match (&dashboard_port, &port) {
        (Some(dv), Some(pv)) => {
            if !dv.eq(pv) {
                let mut text = String::from_str("DASHBOARD_PORT (");
                text.append(dv.as_str());
                text.append(") differs from PORT (");
                text.append(pv.as_str());
                text.append("). This may cause issues on Render.");
                assert(text@ == port_conflict_text(dv@, pv@));
                warnings.push(text);
            }
        },
        _ => {},
    }
    assert(texts(warnings@) =~= missing_port_part(p) + conflict_part(p, d));
    if host_is_set {
        warnings.push(String::from_str(HOST_SET));
    }
    assert(texts(warnings@) =~= missing_port_part(p) + conflict_part(p, d) + host_part(
        host_is_set,
    ));
    warnings
}

} // verus!
