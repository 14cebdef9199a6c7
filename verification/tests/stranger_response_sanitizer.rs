use librefang::stranger_response_sanitizer::{
    assemble_reply, has_leak_prefix, is_leak_line, leak_line_prefixes, sanitize_stranger_response,
    NEUTRAL_FALLBACK,
};

#[test]
fn passes_through_clean_text() {
    let input = "Ciao Federico! Tutto bene, grazie. E tu come stai?";
    assert_eq!(sanitize_stranger_response(input), input);
}

#[test]
fn drops_risposta_inviata_line() {
    let input = "Ciao Federico! Piacere di conoscerti. Un saluto anche a te 🎩\nRisposta inviata a Federico.";
    let out = sanitize_stranger_response(input);
    assert_eq!(
        out,
        "Ciao Federico! Piacere di conoscerti. Un saluto anche a te 🎩"
    );
}

#[test]
fn drops_ho_notificato_il_signore_line() {
    let input = "Buon pomeriggio.\nHo notificato il Signore in privato della richiesta.";
    let out = sanitize_stranger_response(input);
    assert_eq!(out, "Buon pomeriggio.");
}

#[test]
fn drops_il_messaggio_e_stato_recapitato() {
    let input = "Va bene, ti ringrazio.\nIl messaggio è stato recapitato al contatto.";
    let out = sanitize_stranger_response(input);
    assert_eq!(out, "Va bene, ti ringrazio.");
}

#[test]
fn drops_ho_girato_la_richiesta_line() {
    let input =
        "Ciao Federico!\nHo girato la richiesta al Signore e ti farò sapere.\nA presto!";
    let out = sanitize_stranger_response(input);
    assert_eq!(out, "Ciao Federico!\nA presto!");
}

#[test]
fn drops_il_contatto_e_stato_risposto() {
    let input = "Ok.\nIl contatto è stato risposto: gli ho comunicato che verificherò la disponibilità.";
    let out = sanitize_stranger_response(input);
    assert_eq!(out, "Ok.");
}

#[test]
fn drops_multiple_leak_lines() {
    let input = "Ciao!\nRisposta inviata.\nHo notificato il Signore.\nGrazie.";
    let out = sanitize_stranger_response(input);
    assert_eq!(out, "Ciao!\nGrazie.");
}

#[test]
fn returns_neutral_fallback_when_only_leak() {
    let input = "Risposta inviata a Federico.";
    let out = sanitize_stranger_response(input);
    assert_eq!(out, NEUTRAL_FALLBACK);
}

#[test]
fn returns_neutral_fallback_when_all_lines_leak() {
    let input =
        "Risposta inviata.\nHo notificato il Signore.\nIl messaggio è stato recapitato.";
    let out = sanitize_stranger_response(input);
    assert_eq!(out, NEUTRAL_FALLBACK);
}

#[test]
fn returns_neutral_fallback_when_empty() {
    assert_eq!(sanitize_stranger_response(""), NEUTRAL_FALLBACK);
    assert_eq!(sanitize_stranger_response("   \n  \n  "), NEUTRAL_FALLBACK);
}

#[test]
fn case_insensitive_match() {
    let input = "RISPOSTA INVIATA a Federico.";
    let out = sanitize_stranger_response(input);
    assert_eq!(out, NEUTRAL_FALLBACK);
}

#[test]
fn leading_whitespace_does_not_save_leak_line() {
    let input = "Ciao!\n    Risposta inviata a Federico.";
    let out = sanitize_stranger_response(input);
    assert_eq!(out, "Ciao!");
}

#[test]
fn keeps_mixed_inline_status_when_no_newline() {
    // Single-line mixed: the leak survives but chat doesn't break.
    let input = "Buon pomeriggio! Risposta inviata a Federico.";
    let out = sanitize_stranger_response(input);
    assert_eq!(out, input);
}

#[test]
fn drops_apostrophe_variants() {
    let input = "Ok.\nIl messaggio e' stato recapitato.";
    let out = sanitize_stranger_response(input);
    assert_eq!(out, "Ok.");
}

#[test]
fn drops_ho_inoltrato_variants() {
    for variant in &[
        "Ho inoltrato la richiesta al Signore.",
        "Ho inoltrato la tua richiesta",
        "Ho inoltrato al Signore le tue parole.",
    ] {
        let input = format!("Ciao!\n{variant}");
        let out = sanitize_stranger_response(&input);
        assert_eq!(out, "Ciao!", "failed for variant: {variant}");
    }
}

#[test]
fn drops_ho_gia_inoltrato_with_accent() {
    let input = "Va bene.\nHo già inoltrato la tua richiesta.";
    let out = sanitize_stranger_response(input);
    assert_eq!(out, "Va bene.");
}

#[test]
fn ignores_blank_lines_in_filter() {
    let input = "Ciao!\n\nGrazie.";
    let out = sanitize_stranger_response(input);
    assert_eq!(out, input);
}

#[test]
fn preserves_natural_text_containing_leak_words_inline() {
    // "Risposta" appears inside natural prose, not as line prefix.
    let input = "Aspetto la tua risposta inviata via email, grazie.";
    let out = sanitize_stranger_response(input);
    assert_eq!(out, input);
}

#[test]
fn every_prefix_marks_a_line() {
    for prefix in leak_line_prefixes() {
        assert!(is_leak_line(prefix), "{prefix}");
        assert!(is_leak_line(&format!("  {} e altro", prefix.to_uppercase())), "{prefix}");
        assert!(!is_leak_line(&format!("Oggi {prefix}")), "{prefix}");
    }
    assert_eq!(leak_line_prefixes().len(), 33);
}

#[test]
fn blank_lines_are_no_leaks() {
    assert!(!is_leak_line(""));
    assert!(!is_leak_line(" \t "));
}

#[test]
fn prefix_check_takes_lowercased_text() {
    assert!(has_leak_prefix("risposta inviata a tutti"));
    assert!(!has_leak_prefix("Risposta inviata a tutti"));
    assert!(!has_leak_prefix("risposta"));
}

#[test]
fn assembling_keeps_the_unmarked_lines() {
    let lines = vec!["a".to_string(), "b".to_string(), "c".to_string()];
    assert_eq!(assemble_reply(&lines, &vec![false, true, false]), "a\nc");
    assert_eq!(assemble_reply(&lines, &vec![false, false, false]), "a\nb\nc");
    assert_eq!(assemble_reply(&lines, &vec![true, true, true]), NEUTRAL_FALLBACK);
    assert_eq!(assemble_reply(&vec![], &vec![]), NEUTRAL_FALLBACK);
}

#[test]
fn trailing_newline_is_kept() {
    assert_eq!(sanitize_stranger_response("Ciao!\n"), "Ciao!\n");
    assert_eq!(sanitize_stranger_response("Risposta inviata.\nCiao!\n"), "Ciao!\n");
}

#[test]
fn cleaning_twice_is_cleaning_once() {
    let once = sanitize_stranger_response("Uno\nConferma invio\n\nDue");
    assert_eq!(once, "Uno\n\nDue");
    assert_eq!(sanitize_stranger_response(&once), once);
}

#[test]
fn the_fallback_is_clean() {
    assert!(!is_leak_line(NEUTRAL_FALLBACK));
    let once = sanitize_stranger_response("Invio completato");
    assert_eq!(sanitize_stranger_response(&once), NEUTRAL_FALLBACK);
}

#[test]
fn what_is_sent_is_never_blank() {
    for reply in ["", "\n\n", "\u{3000}", "Invio completato", "Invio completato\n \n"] {
        assert!(!sanitize_stranger_response(reply).trim().is_empty());
    }
}

#[test]
fn no_leak_line_is_left() {
    let out = sanitize_stranger_response("A\nHO RECAPITATO tutto\nB\n l'ho fatto presente\nC");
    assert!(out.split('\n').all(|line| !is_leak_line(line)));
    assert_eq!(out, "A\nB\nC");
}

#[test]
fn accented_capitals_are_lowered() {
    assert!(is_leak_line("IL SIGNORE È STATO NOTIFICATO"));
}
