use system_rust::{connections, ports, signal, terminals, Binding, PortDecl, Sender, Terminal, Way};
use system_rust::{BReadError, Delivery, In, Out, Read, Write};
use tokio::sync::broadcast::error::RecvError;

#[derive(Clone, Debug, PartialEq)]
struct Packet {
    id: u32,
    address: u32,
    payload: Vec<u32>,
}

async fn b_read<T: Clone + PartialEq>(port: &mut In<T>) -> Result<T, BReadError> {
    loop {
        if port.signal.cursor.closed {
            return Err(BReadError::Closed);
        }
        let d = match port.signal.rx.recv().await {
            Ok(v) => Delivery::Value(v),
            Err(RecvError::Lagged(_)) => Delivery::Lagged,
            Err(RecvError::Closed) => Delivery::Closed,
        };
        if let Some(r) = port.b_read_step(d) {
            return r;
        }
    }
}

fn row(module: &str, port: &str, way: Way, signal: &str) -> Binding {
    Binding {
        module: module.to_string(),
        port: port.to_string(),
        way,
        signal: signal.to_string(),
    }
}

struct Copro {
    ready_in: In<bool>,
    data_in: In<Packet>,
    ready_out: Out<bool>,
    data_out: Out<Packet>,
}

struct Link {
    data_out: Out<Packet>,
    ready_out: Out<bool>,
    ready_in: In<bool>,
    data_in: In<Packet>,
}

async fn generator(to_ic: Out<Packet>, mut from_ic: In<Packet>) -> Vec<(Packet, Packet)> {
    let mut exchanged = Vec::new();
    for (id, address) in [0u32, 1, 2, 0].into_iter().enumerate() {
        let packet = Packet {
            id: id as u32,
            address,
            payload: (0..10).map(|k| id as u32 * 100 + k).collect(),
        };
        to_ic.nb_write(packet.clone()).unwrap();
        match b_read(&mut from_ic).await {
            Ok(response) => exchanged.push((packet, response)),
            Err(_) => break,
        }
    }
    exchanged
}

async fn interconnect(mut from_pro: In<Packet>, to_pro: Out<Packet>, mut links: Vec<Link>) {
    loop {
        let packet = match b_read(&mut from_pro).await {
            Ok(packet) => packet,
            Err(_) => return,
        };
        let link = match links.get_mut(packet.address as usize) {
            Some(link) => link,
            None => return,
        };
        link.data_out.nb_write(packet).unwrap();
        link.ready_out.nb_write(true).unwrap();
        match b_read(&mut link.ready_in).await {
            Ok(true) => {}
            _ => return,
        }
        let response = match link.data_in.nb_read() {
            Ok(response) => response,
            Err(_) => return,
        };
        link.ready_out.nb_write(false).unwrap();
        match b_read(&mut link.ready_in).await {
            Ok(false) => {}
            _ => return,
        }
        to_pro.nb_write(response).unwrap();
    }
}

async fn coprocessor(mut p: Copro) {
    loop {
        match b_read(&mut p.ready_in).await {
            Ok(true) => {
                if let Ok(packet) = p.data_in.nb_read() {
                    p.data_out.nb_write(packet).unwrap();
                    p.ready_out.nb_write(true).unwrap();
                }
            }
            Ok(false) => p.ready_out.nb_write(false).unwrap(),
            Err(_) => return,
        }
    }
}

fn ports_of<T: Clone + PartialEq>(rows: &Vec<Binding>, names: &[&str]) -> Vec<Option<Terminal<T>>> {
    let mut made: Vec<Option<Terminal<T>>> = (0..rows.len()).map(|_| None).collect();
    for name in names {
        let mut tx: Sender<T> = signal();
        for (i, t) in terminals(rows, &name.to_string(), &mut tx) {
            made[i] = Some(t);
        }
    }
    made
}

fn take<T>(made: &mut [Option<Terminal<T>>], rows: &[Binding], module: &str, port: &str) -> Terminal<T> {
    let i = rows.iter().position(|b| b.module == module && b.port == port).unwrap();
    made[i].take().unwrap()
}

fn input<T>(t: Terminal<T>) -> In<T> {
    match t {
        Terminal::In(p) => p,
        Terminal::Out(_) => panic!("expected a reading port"),
    }
}

fn output<T>(t: Terminal<T>) -> Out<T> {
    match t {
        Terminal::Out(p) => p,
        Terminal::In(_) => panic!("expected a writing port"),
    }
}

#[test]
fn sorter_round_trips_every_packet() {
    let mut rows = vec![
        row("packet_gen", "pro_to_ic", Way::Out, "pro_to_ic"),
        row("packet_gen", "ic_to_pro", Way::In, "ic_to_pro"),
        row("interconnect", "pro_to_ic", Way::In, "pro_to_ic"),
        row("interconnect", "ic_to_pro", Way::Out, "ic_to_pro"),
    ];
    for k in 1..=3 {
        let c = format!("copro{}", k);
        for (port, way_ic) in [
            (format!("ic_to_{}_ready", c), Way::Out),
            (format!("ic_to_{}", c), Way::Out),
            (format!("{}_to_ic_ready", c), Way::In),
            (format!("{}_to_ic", c), Way::In),
        ] {
            let way_copro = if way_ic == Way::Out { Way::In } else { Way::Out };
            rows.push(row("interconnect", &port, way_ic, &port));
            rows.push(row(&c, &port, way_copro, &port));
        }
    }
    let units = connections(&rows).unwrap();
    let modules: Vec<&str> = units.iter().map(|u| u.module.as_str()).collect();
    assert_eq!(modules, vec!["packet_gen", "interconnect", "copro1", "copro2", "copro3"]);
    let gen_decls = vec![
        PortDecl { name: "pro_to_ic".to_string(), way: Way::Out, ty: "Packet".to_string() },
        PortDecl { name: "ic_to_pro".to_string(), way: Way::In, ty: "Packet".to_string() },
    ];
    assert_eq!(ports(&gen_decls, &"packet_gen".to_string(), &rows), Ok(()));

    let mut flag_names: Vec<&str> = Vec::new();
    let mut packet_names: Vec<&str> = Vec::new();
    for b in &rows {
        let names = if b.signal.ends_with("_ready") { &mut flag_names } else { &mut packet_names };
        if !names.contains(&b.signal.as_str()) {
            names.push(b.signal.as_str());
        }
    }
    let mut packets = ports_of::<Packet>(&rows, &packet_names);
    let mut flags = ports_of::<bool>(&rows, &flag_names);

    let gen_out = output(take(&mut packets, &rows, "packet_gen", "pro_to_ic"));
    let gen_in = input(take(&mut packets, &rows, "packet_gen", "ic_to_pro"));
    let ic_in = input(take(&mut packets, &rows, "interconnect", "pro_to_ic"));
    let ic_out = output(take(&mut packets, &rows, "interconnect", "ic_to_pro"));
    let mut links = Vec::new();
    let mut copros = Vec::new();
    for k in 1..=3 {
        let c = format!("copro{}", k);
        links.push(Link {
            data_out: output(take(&mut packets, &rows, "interconnect", &format!("ic_to_{}", c))),
            ready_out: output(take(&mut flags, &rows, "interconnect", &format!("ic_to_{}_ready", c))),
            ready_in: input(take(&mut flags, &rows, "interconnect", &format!("{}_to_ic_ready", c))),
            data_in: input(take(&mut packets, &rows, "interconnect", &format!("{}_to_ic", c))),
        });
        copros.push(Copro {
            ready_in: input(take(&mut flags, &rows, &c, &format!("ic_to_{}_ready", c))),
            data_in: input(take(&mut packets, &rows, &c, &format!("ic_to_{}", c))),
            ready_out: output(take(&mut flags, &rows, &c, &format!("{}_to_ic_ready", c))),
            data_out: output(take(&mut packets, &rows, &c, &format!("{}_to_ic", c))),
        });
    }

    let exchanged = tokio::runtime::Builder::new_current_thread().build().unwrap().block_on(async move {
        let mut others = Vec::new();
        others.push(tokio::task::spawn(interconnect(ic_in, ic_out, links)));
        for p in copros {
            others.push(tokio::task::spawn(coprocessor(p)));
        }
        let gen = tokio::task::spawn(generator(gen_out, gen_in));
        let exchanged = gen.await.unwrap();
        for task in others {
            task.await.unwrap();
        }
        exchanged
    });

    assert_eq!(exchanged.len(), 4);
    let addresses: Vec<u32> = exchanged.iter().map(|(sent, _)| sent.address).collect();
    assert_eq!(addresses, vec![0, 1, 2, 0]);
    for (i, (sent, got)) in exchanged.iter().enumerate() {
        assert_eq!(sent.id, i as u32);
        assert_eq!(got, sent);
    }
}
