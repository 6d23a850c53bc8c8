use clouddesk::terminal::{
    admit_terminal, local_client_step, local_server_step, remote_terminal_step,
    revalidation_token, session_result, valid_dimensions, CloseReason, LocalClientInput,
    LocalServerInput, LocalTerminalAction, RemoteTerminalAction, RemoteTerminalEvent,
};

#[test]
fn remote_terminal_decisions() {
    assert!(matches!(
        remote_terminal_step(RemoteTerminalEvent::Revalidated { server_ok: true, session_ok: false }),
        RemoteTerminalAction::RevokeAndStop
    ));
    assert!(matches!(
        remote_terminal_step(RemoteTerminalEvent::ClientResize { cols: 0, rows: 24 }),
        RemoteTerminalAction::Continue
    ));
    assert!(matches!(
        remote_terminal_step(RemoteTerminalEvent::ClientResize { cols: 80, rows: 24 }),
        RemoteTerminalAction::Resize { cols: 80, rows: 24 }
    ));
    assert!(matches!(
        remote_terminal_step(RemoteTerminalEvent::TerminalExit(Some(3))),
        RemoteTerminalAction::ExitAndStop(Some(3))
    ));
    assert!(matches!(
        remote_terminal_step(RemoteTerminalEvent::TerminalClosed),
        RemoteTerminalAction::Stop(CloseReason::Exited)
    ));
    assert!(valid_dimensions(1000, 1) && !valid_dimensions(1001, 1));
    assert!(admit_terminal(63) && !admit_terminal(64));
    assert_eq!(revalidation_token("clouddesk_session=tok"), "tok");
    assert_eq!(revalidation_token("tok"), "tok");
}

#[test]
fn local_terminal_decisions() {
    assert_eq!(local_client_step(LocalClientInput::Request { close: true }), LocalTerminalAction::Forward { then_stop: true });
    assert_eq!(local_client_step(LocalClientInput::Unparsed), LocalTerminalAction::Ignore);
    assert_eq!(local_client_step(LocalClientInput::Failed), LocalTerminalAction::Stop { failed: true });
    assert_eq!(local_server_step(LocalServerInput::Error), LocalTerminalAction::RelayAndStop { failed: true });
    assert_eq!(local_server_step(LocalServerInput::Exit), LocalTerminalAction::RelayAndStop { failed: false });
    assert_eq!(session_result(true), "failure");
}
