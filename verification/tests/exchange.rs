use http_body_util::{BodyExt, Full};
use hyper::body::Bytes;
use hyper::rt::ReadBufCursor;
use hyper::service::service_fn;
use hyper::Response;
use hyper_util::client::legacy::connect::{Connected, Connection};
use hyper_util::client::legacy::Client;
use hyper_util::rt::{TokioExecutor, TokioIo};
use hyperlocal::error::{Error, OsErrorKind};
use hyperlocal::server::{classify, Action, Event, ServeEnd};
use hyperlocal::{ServeLoop, UnixConnector, Uri};
use std::future::Future;
use std::io;
use std::path::PathBuf;
use std::pin::Pin;
use std::sync::atomic::{AtomicBool, Ordering};
use std::sync::Arc;
use std::task::{Context, Poll};
use std::time::{SystemTime, UNIX_EPOCH};
use tokio::net::{UnixListener, UnixStream};

const PHRASE: &str = "It works!";

struct Stream(TokioIo<UnixStream>);

impl hyper::rt::Read for Stream {
    fn poll_read(
        self: Pin<&mut Self>,
        cx: &mut Context<'_>,
        buf: ReadBufCursor<'_>,
    ) -> Poll<io::Result<()>> {
        Pin::new(&mut self.get_mut().0).poll_read(cx, buf)
    }
}

impl hyper::rt::Write for Stream {
    fn poll_write(
        self: Pin<&mut Self>,
        cx: &mut Context<'_>,
        buf: &[u8],
    ) -> Poll<io::Result<usize>> {
        Pin::new(&mut self.get_mut().0).poll_write(cx, buf)
    }

    fn poll_flush(self: Pin<&mut Self>, cx: &mut Context<'_>) -> Poll<io::Result<()>> {
        Pin::new(&mut self.get_mut().0).poll_flush(cx)
    }

    fn poll_shutdown(self: Pin<&mut Self>, cx: &mut Context<'_>) -> Poll<io::Result<()>> {
        Pin::new(&mut self.get_mut().0).poll_shutdown(cx)
    }
}

impl Connection for Stream {
    fn connected(&self) -> Connected {
        Connected::new()
    }
}

fn os_error_kind(error: &io::Error) -> OsErrorKind {
    match error.kind() {
        io::ErrorKind::NotFound => OsErrorKind::NotFound,
        io::ErrorKind::PermissionDenied => OsErrorKind::PermissionDenied,
        io::ErrorKind::ConnectionRefused => OsErrorKind::ConnectionRefused,
        io::ErrorKind::AddrInUse => OsErrorKind::AddrInUse,
        io::ErrorKind::NotConnected => OsErrorKind::NotConnected,
        _ => OsErrorKind::Other,
    }
}

fn to_path(bytes: &[u8]) -> PathBuf {
    PathBuf::from(String::from_utf8(bytes.to_vec()).unwrap())
}

async fn dial(scheme: Option<&str>, host: Option<&str>) -> Result<UnixStream, Error> {
    let dial = UnixConnector.call(scheme, host)?;
    match UnixStream::connect(to_path(dial.path())).await {
        Ok(stream) => dial.finish(Ok(())).map(|()| stream),
        Err(error) => match dial.finish(Err(os_error_kind(&error))) {
            Ok(()) => unreachable!(),
            Err(failure) => Err(failure),
        },
    }
}

#[derive(Clone)]
struct Connector;

impl tower_service::Service<hyper::Uri> for Connector {
    type Response = Stream;
    type Error = io::Error;
    type Future = Pin<Box<dyn Future<Output = Result<Stream, io::Error>> + Send + 'static>>;

    fn call(&mut self, req: hyper::Uri) -> Self::Future {
        Box::pin(async move {
            match dial(req.scheme_str(), req.host()).await {
                Ok(stream) => Ok(Stream(TokioIo::new(stream))),
                Err(failure) => Err(io::Error::other(failure.message())),
            }
        })
    }

    fn poll_ready(&mut self, _cx: &mut Context<'_>) -> Poll<Result<(), io::Error>> {
        Poll::Ready(Ok(()))
    }
}

fn socket_path(name: &str) -> String {
    let nanos = SystemTime::now().duration_since(UNIX_EPOCH).unwrap().as_nanos();
    format!("/tmp/hyperlocal-{}-{}.sock", name, nanos)
}

fn runtime() -> tokio::runtime::Runtime {
    tokio::runtime::Builder::new_current_thread().enable_io().build().unwrap()
}

fn caused_by_not_connected(error: &(dyn std::error::Error + 'static)) -> bool {
    let mut cause: Option<&(dyn std::error::Error + 'static)> = Some(error);
    while let Some(e) = cause {
        if let Some(io_error) = e.downcast_ref::<io::Error>() {
            if io_error.kind() == io::ErrorKind::NotConnected {
                return true;
            }
        }
        cause = e.source();
    }
    false
}

async fn serve(listener: UnixListener, connections: usize) -> (ServeLoop, Vec<Option<Error>>) {
    let mut state = ServeLoop::new();
    let mut reports = Vec::new();
    for _ in 0..connections {
        assert!(state.wants_accept());
        let (stream, _) = listener.accept().await.unwrap();
        assert_eq!(state.step(Event::Accepted), Action::Spawn);
        let responded = Arc::new(AtomicBool::new(false));
        let flag = Arc::clone(&responded);
        let handler = service_fn(move |_request| {
            let flag = Arc::clone(&flag);
            async move {
                flag.store(true, Ordering::SeqCst);
                Ok::<_, hyper::Error>(Response::new(Full::new(Bytes::from(PHRASE))))
            }
        });
        let served = hyper::server::conn::http1::Builder::new()
            .keep_alive(false)
            .serve_connection(TokioIo::new(stream), handler)
            .await;
        let end = match served {
            Ok(()) => ServeEnd::Completed,
            Err(error) => ServeEnd::Failed {
                peer_not_connected: caused_by_not_connected(&error),
                exchange_done: responded.load(Ordering::SeqCst),
            },
        };
        let action = state.step(Event::Ended(end));
        match classify(end) {
            None => assert_eq!(action, Action::Served),
            Some(failure) => assert_eq!(action, Action::Report(failure)),
        }
        reports.push(classify(end));
    }
    (state, reports)
}

async fn get(path: &str) -> Vec<u8> {
    let client: Client<Connector, Full<Bytes>> = Client::builder(TokioExecutor::new()).build(Connector);
    let uri: hyper::Uri = Uri::new(path.as_bytes(), "/").as_str().parse().unwrap();
    let response = client.get(uri).await.unwrap();
    response.into_body().collect().await.unwrap().to_bytes().to_vec()
}

#[test]
fn exchange_over_a_bound_socket() {
    let path = socket_path("exchange");
    runtime().block_on(async {
        let listener = UnixListener::bind(&path).unwrap();
        let server = tokio::spawn(serve(listener, 1));
        let body = get(&path).await;
        assert_eq!(body, PHRASE.as_bytes().to_vec());
        let (state, reports) = server.await.unwrap();
        assert!(state.wants_accept());
        assert_eq!(state.in_flight(), 0);
        assert_eq!(reports.len(), 1);
        assert!(reports.iter().all(|r| r.is_none() || *r == Some(Error::BenignDisconnect)));
    });
}

#[test]
fn second_client_after_the_first_has_gone() {
    let path = socket_path("second");
    runtime().block_on(async {
        let listener = UnixListener::bind(&path).unwrap();
        let server = tokio::spawn(serve(listener, 2));
        let first = get(&path).await;
        assert_eq!(first, PHRASE.as_bytes().to_vec());
        let second = get(&path).await;
        assert_eq!(second, PHRASE.as_bytes().to_vec());
        let (state, reports) = server.await.unwrap();
        assert!(state.wants_accept());
        assert_eq!(state.in_flight(), 0);
        assert_eq!(reports.len(), 2);
        assert!(reports.iter().all(|r| r.is_none() || *r == Some(Error::BenignDisconnect)));
    });
}

#[test]
fn dialing_a_path_that_nothing_is_bound_to() {
    let path = socket_path("nothing");
    let uri: hyper::Uri = Uri::new(path.as_bytes(), "/").as_str().parse().unwrap();
    runtime().block_on(async {
        let failure = dial(uri.scheme_str(), uri.host()).await.unwrap_err();
        assert_eq!(failure, Error::DialFailure(OsErrorKind::NotFound));
        assert!(failure.returned_to_caller());
    });
}

#[test]
fn dialing_an_address_with_another_scheme_opens_nothing() {
    let uri: hyper::Uri = "http://2f746d70:0/".parse().unwrap();
    runtime().block_on(async {
        let failure = dial(uri.scheme_str(), uri.host()).await.unwrap_err();
        assert_eq!(failure, Error::InvalidAddress);
    });
}

#[test]
fn binding_a_path_twice_is_a_bind_failure() {
    let path = socket_path("twice");
    runtime().block_on(async {
        let first = UnixListener::bind(&path).map(|_| ()).map_err(|e| os_error_kind(&e));
        assert!(ServeLoop::bind(first).is_ok());
        let second = UnixListener::bind(&path).map(|_| ()).map_err(|e| os_error_kind(&e));
        assert_eq!(
            ServeLoop::bind(second).unwrap_err(),
            Error::BindFailure(OsErrorKind::AddrInUse)
        );
    });
}
