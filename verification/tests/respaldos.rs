use yarvis_app::respaldos::{backups_a_borrar, MAX_BACKUPS};

#[test]
fn rotar_backups_conserva_solo_los_ultimos_5() {
    let nombres: Vec<String> = (1..=7).rev().map(|i| format!("yarvis-2026010{i}-120000.db")).collect();
    let borrar = backups_a_borrar(&nombres);
    assert_eq!(nombres.len() - borrar.len(), MAX_BACKUPS);
    assert!(borrar.contains(&"yarvis-20260101-120000.db".to_string()));
    assert!(borrar.contains(&"yarvis-20260102-120000.db".to_string()));
    assert!(!borrar.contains(&"yarvis-20260107-120000.db".to_string()));
}

#[test]
fn backup_ignora_nombres_que_no_son_yarvis() {
    let nombres = vec!["otro.db".to_string(), "yarvis-20260101-120000.db".to_string()];
    assert!(backups_a_borrar(&nombres).is_empty());
    let mut muchos: Vec<String> = (1..=8).map(|i| format!("yarvis-2026010{i}-120000.db")).collect();
    muchos.push("otro.db".into());
    muchos.push("yarvis-notas.txt".into());
    let borrar = backups_a_borrar(&muchos);
    assert_eq!(borrar.len(), 3);
    assert!(!borrar.contains(&"otro.db".to_string()));
    assert!(!borrar.contains(&"yarvis-notas.txt".to_string()));
}
